//! The handshaking state. Its one packet is the handshake, under id 0.

use crate::buffer::contents;
use crate::network::packets::handshake::{handshake_effect, HandshakePacket, HandshakeView};
use crate::network::packets::PacketHandler;
use crate::network::player_connection::{PlayerConnection, PlayerConnectionView};
use crate::protocol::serial::{PacketError, PacketRead};
use bytes::BytesMut;
use vstd::prelude::*;

verus! {

/// A packet of the handshaking state.
#[derive(Debug)]
pub enum HandshakePacketHandler {
    Handshake(HandshakePacket),
}

/// A packet of the handshaking state as contracts see it.
pub enum HandshakeHandlerView {
    Handshake(HandshakeView),
}

impl View for HandshakePacketHandler {
    type V = HandshakeHandlerView;

    open spec fn view(&self) -> HandshakeHandlerView {
        match self {
            HandshakePacketHandler::Handshake(packet) => HandshakeHandlerView::Handshake(
                packet.deep_view(),
            ),
        }
    }
}

/// What the packet with `id` and the fields in `bytes` is, and how many of
/// the bytes it takes.
pub open spec fn handshaking_packet(id: i32, bytes: Seq<u8>) -> Result<
    (HandshakeHandlerView, nat),
    PacketError,
> {
    if id == 0x00 {
        match HandshakePacket::parse(bytes) {
            Ok((packet, used)) => Ok((HandshakeHandlerView::Handshake(packet), used)),
            Err(e) => Err(e),
        }
    } else {
        Err(PacketError::UnknownPacket)
    }
}

/// What a packet of the handshaking state does.
pub open spec fn handshaking_effect(ctx: PlayerConnectionView, packet: HandshakeHandlerView) -> (
    PlayerConnectionView,
    Result<(), PacketError>,
) {
    match packet {
        HandshakeHandlerView::Handshake(packet) => handshake_effect(ctx, packet),
    }
}

impl HandshakePacketHandler {
    /// Reads the fields of the packet with `id` from the head of `data`.
    /// An id the state does not know is `UnknownPacket`. On an error `data`
    /// is left as it was.
    pub fn from_id(id: i32, data: &mut BytesMut) -> (r: Result<HandshakePacketHandler, PacketError>)
        ensures
            match handshaking_packet(id, contents(*old(data))) {
                Ok((packet, used)) => r matches Ok(handler) && handler@ == packet && contents(
                    *final(data),
                ) == contents(*old(data)).skip(used as int),
                Err(e) => r matches Err(f) && f == e && contents(*final(data)) == contents(
                    *old(data),
                ),
            },
    {
        if id == 0x00 {
            match HandshakePacket::read(data) {
                Ok(packet) => Ok(HandshakePacketHandler::Handshake(packet)),
                Err(e) => Err(e),
            }
        } else {
            Err(PacketError::UnknownPacket)
        }
    }

    /// Does what the packet asks for.
    pub fn dispatch_packet(&self, ctx: &mut PlayerConnection) -> (r: Result<(), PacketError>)
        ensures
            (final(ctx)@, r) == handshaking_effect(old(ctx)@, self@),
    {
        match self {
            HandshakePacketHandler::Handshake(packet) => packet.handle(ctx),
        }
    }
}

} // verus!
