//! The configuration state. The client's settings come under id 0, the end
//! of the configuration under id 2.

use crate::buffer::contents;
use crate::network::packets::configuration::{
    client_information_effect, finish_configuration_effect, ClientInformationPacket,
    ClientInformationView, FinishConfigurationPacket,
};
use crate::network::packets::PacketHandler;
use crate::network::player_connection::{PlayerConnection, PlayerConnectionView};
use crate::protocol::serial::{PacketError, PacketRead};
use bytes::BytesMut;
use vstd::prelude::*;

verus! {

/// A packet of the configuration state.
#[derive(Debug)]
pub enum ConfigurationPacketHandler {
    ClientInformation(ClientInformationPacket),
    FinishConfiguration(FinishConfigurationPacket),
}

/// A packet of the configuration state as contracts see it.
pub enum ConfigurationHandlerView {
    ClientInformation(ClientInformationView),
    FinishConfiguration,
}

impl View for ConfigurationPacketHandler {
    type V = ConfigurationHandlerView;

    open spec fn view(&self) -> ConfigurationHandlerView {
        match self {
            ConfigurationPacketHandler::ClientInformation(packet) => {
                ConfigurationHandlerView::ClientInformation(packet.deep_view())
            },
            ConfigurationPacketHandler::FinishConfiguration(_) => {
                ConfigurationHandlerView::FinishConfiguration
            },
        }
    }
}

/// What the packet with `id` and the fields in `bytes` is, and how many of
/// the bytes it takes.
pub open spec fn configuration_packet(id: i32, bytes: Seq<u8>) -> Result<
    (ConfigurationHandlerView, nat),
    PacketError,
> {
    if id == 0x00 {
        match ClientInformationPacket::parse(bytes) {
            Ok((packet, used)) => Ok((ConfigurationHandlerView::ClientInformation(packet), used)),
            Err(e) => Err(e),
        }
    } else if id == 0x02 {
        Ok((ConfigurationHandlerView::FinishConfiguration, 0))
    } else {
        Err(PacketError::UnknownPacket)
    }
}

/// What a packet of the configuration state does.
pub open spec fn configuration_effect(
    ctx: PlayerConnectionView,
    packet: ConfigurationHandlerView,
) -> (PlayerConnectionView, Result<(), PacketError>) {
    match packet {
        ConfigurationHandlerView::ClientInformation(packet) => client_information_effect(
            ctx,
            packet,
        ),
        ConfigurationHandlerView::FinishConfiguration => finish_configuration_effect(ctx),
    }
}

impl ConfigurationPacketHandler {
    /// Reads the fields of the packet with `id` from the head of `data`.
    /// An id the state does not know is `UnknownPacket`. On an error `data`
    /// is left as it was.
    pub fn from_id(id: i32, data: &mut BytesMut) -> (r: Result<
        ConfigurationPacketHandler,
        PacketError,
    >)
        ensures
            match configuration_packet(id, contents(*old(data))) {
                Ok((packet, used)) => r matches Ok(handler) && handler@ == packet && contents(
                    *final(data),
                ) == contents(*old(data)).skip(used as int),
                Err(e) => r matches Err(f) && f == e && contents(*final(data)) == contents(
                    *old(data),
                ),
            },
    {
        if id == 0x00 {
            match ClientInformationPacket::read(data) {
                Ok(packet) => Ok(ConfigurationPacketHandler::ClientInformation(packet)),
                Err(e) => Err(e),
            }
        } else if id == 0x02 {
            assert(contents(*data).skip(0) =~= contents(*data));
            match FinishConfigurationPacket::read(data) {
                Ok(packet) => Ok(ConfigurationPacketHandler::FinishConfiguration(packet)),
                Err(e) => Err(e),
            }
        } else {
            Err(PacketError::UnknownPacket)
        }
    }

    /// Does what the packet asks for.
    pub fn dispatch_packet(&self, ctx: &mut PlayerConnection) -> (r: Result<(), PacketError>)
        ensures
            (final(ctx)@, r) == configuration_effect(old(ctx)@, self@),
    {
        match self {
            ConfigurationPacketHandler::ClientInformation(packet) => packet.handle(ctx),
            ConfigurationPacketHandler::FinishConfiguration(packet) => packet.handle(ctx),
        }
    }
}

} // verus!
