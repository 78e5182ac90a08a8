//! The login state. The login start comes under id 0, the client's
//! acknowledgement under id 3. A client that speaks another protocol than
//! the server is turned away whatever it sends.

use crate::buffer::contents;
use crate::components::get_protocol_version;
use crate::network::packets::login::{
    login_acknowledged_effect, login_start_effect, mismatch_reason, version_mismatch_effect,
    LoginAcknowledgedPacket, LoginDisconnectionPacket, LoginStartPacket, LoginStartView,
};
use crate::network::packets::PacketHandler;
use crate::network::player_connection::{PlayerConnection, PlayerConnectionView};
use crate::protocol::serial::{PacketError, PacketRead};
use bytes::BytesMut;
use vstd::prelude::*;

verus! {

/// A packet of the login state, or the answer to a client that must not
/// log in.
#[derive(Debug)]
pub enum LoginPacketHandler {
    LoginStart(LoginStartPacket),
    Acknowledged(LoginAcknowledgedPacket),
    LoginDisconnect(LoginDisconnectionPacket),
}

/// A packet of the login state as contracts see it.
pub enum LoginHandlerView {
    LoginStart(LoginStartView),
    Acknowledged,
    /// The client is turned away, for the reason given.
    LoginDisconnect(Seq<char>),
}

impl View for LoginPacketHandler {
    type V = LoginHandlerView;

    open spec fn view(&self) -> LoginHandlerView {
        match self {
            LoginPacketHandler::LoginStart(packet) => LoginHandlerView::LoginStart(
                packet.deep_view(),
            ),
            LoginPacketHandler::Acknowledged(_) => LoginHandlerView::Acknowledged,
            LoginPacketHandler::LoginDisconnect(packet) => LoginHandlerView::LoginDisconnect(
                packet.reason@,
            ),
        }
    }
}

/// What the packet with `id` and the fields in `bytes` is for a client
/// that speaks `protocol`, and how many of the bytes it takes.
pub open spec fn login_packet(protocol: i32, id: i32, bytes: Seq<u8>) -> Result<
    (LoginHandlerView, nat),
    PacketError,
> {
    if protocol != 774 {
        Ok((LoginHandlerView::LoginDisconnect(mismatch_reason(protocol)), 0))
    } else if id == 0x00 {
        match LoginStartPacket::parse(bytes) {
            Ok((packet, used)) => Ok((LoginHandlerView::LoginStart(packet), used)),
            Err(e) => Err(e),
        }
    } else if id == 0x03 {
        Ok((LoginHandlerView::Acknowledged, 0))
    } else {
        Err(PacketError::UnknownPacket)
    }
}

/// What a packet of the login state does.
pub open spec fn login_effect(ctx: PlayerConnectionView, packet: LoginHandlerView) -> (
    PlayerConnectionView,
    Result<(), PacketError>,
) {
    match packet {
        LoginHandlerView::LoginStart(packet) => login_start_effect(ctx, packet),
        LoginHandlerView::Acknowledged => login_acknowledged_effect(ctx),
        LoginHandlerView::LoginDisconnect(reason) => crate::network::packets::login::turned_away(
            ctx,
            reason,
        ),
    }
}

impl LoginPacketHandler {
    /// Reads the fields of the packet with `id` from the head of `data`,
    /// for the client of `ctx`. Where the client speaks another protocol
    /// than the server, nothing is read and the result is the packet that
    /// turns it away. An id the state does not know is `UnknownPacket`. On
    /// an error `data` is left as it was.
    pub fn from_id(ctx: &PlayerConnection, id: i32, data: &mut BytesMut) -> (r: Result<
        LoginPacketHandler,
        PacketError,
    >)
        ensures
            match login_packet(ctx@.protocol, id, contents(*old(data))) {
                Ok((packet, used)) => r matches Ok(handler) && handler@ == packet && contents(
                    *final(data),
                ) == contents(*old(data)).skip(used as int),
                Err(e) => r matches Err(f) && f == e && contents(*final(data)) == contents(
                    *old(data),
                ),
            },
    {
        proof {
            assert(contents(*data).skip(0) =~= contents(*data));
        }
        if ctx.get_protocol() != get_protocol_version() {
            let kick = LoginDisconnectionPacket::version_mismatch(ctx.get_protocol());
            return Ok(LoginPacketHandler::LoginDisconnect(kick));
        }
        if id == 0x00 {
            match LoginStartPacket::read(data) {
                Ok(packet) => Ok(LoginPacketHandler::LoginStart(packet)),
                Err(e) => Err(e),
            }
        } else if id == 0x03 {
            match LoginAcknowledgedPacket::read(data) {
                Ok(packet) => Ok(LoginPacketHandler::Acknowledged(packet)),
                Err(e) => Err(e),
            }
        } else {
            Err(PacketError::UnknownPacket)
        }
    }

    /// Does what the packet asks for.
    pub fn dispatch_packet(&self, ctx: &mut PlayerConnection) -> (r: Result<(), PacketError>)
        ensures
            (final(ctx)@, r) == login_effect(old(ctx)@, self@),
    {
        match self {
            LoginPacketHandler::LoginStart(packet) => packet.handle(ctx),
            LoginPacketHandler::Acknowledged(packet) => packet.handle(ctx),
            LoginPacketHandler::LoginDisconnect(packet) => packet.turn_away(ctx),
        }
    }
}

} // verus!
