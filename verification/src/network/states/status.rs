//! The status state. The status request comes under id 0, the ping under
//! id 1.

use crate::buffer::contents;
use crate::events::{EventBus, EventError, Registered};
use crate::network::event::ServerListPingEvent;
use crate::network::packets::status::{
    ping_effect, status_request_effect, PingRequestPacket, PingRequestView, StatusRequestPacket,
};
use crate::network::packets::PacketHandler;
use crate::network::player_connection::{PlayerConnection, PlayerConnectionView};
use crate::protocol::serial::{PacketError, PacketRead};
use bytes::BytesMut;
use vstd::prelude::*;

verus! {

/// A packet of the status state.
#[derive(Debug)]
pub enum StatusPacketHandler {
    StatusRequest(StatusRequestPacket),
    Ping(PingRequestPacket),
}

/// A packet of the status state as contracts see it.
pub enum StatusHandlerView {
    StatusRequest,
    Ping(PingRequestView),
}

impl View for StatusPacketHandler {
    type V = StatusHandlerView;

    open spec fn view(&self) -> StatusHandlerView {
        match self {
            StatusPacketHandler::StatusRequest(_) => StatusHandlerView::StatusRequest,
            StatusPacketHandler::Ping(packet) => StatusHandlerView::Ping(packet.deep_view()),
        }
    }
}

/// What the packet with `id` and the fields in `bytes` is, and how many of
/// the bytes it takes.
pub open spec fn status_packet(id: i32, bytes: Seq<u8>) -> Result<
    (StatusHandlerView, nat),
    PacketError,
> {
    if id == 0x00 {
        Ok((StatusHandlerView::StatusRequest, 0))
    } else if id == 0x01 {
        match PingRequestPacket::parse(bytes) {
            Ok((packet, used)) => Ok((StatusHandlerView::Ping(packet), used)),
            Err(e) => Err(e),
        }
    } else {
        Err(PacketError::UnknownPacket)
    }
}

/// Whether a packet of the status state, with the handlers of `bus`, can
/// leave the connection as `after` with the verdict `r`.
pub open spec fn status_effect<H: Fn(ServerListPingEvent) -> (
    ServerListPingEvent,
    Result<(), EventError>,
)>(
    ctx: PlayerConnectionView,
    packet: StatusHandlerView,
    bus: Seq<Registered<H>>,
    after: PlayerConnectionView,
    r: Result<(), PacketError>,
) -> bool {
    match packet {
        StatusHandlerView::StatusRequest => status_request_effect(ctx, bus, after, r),
        StatusHandlerView::Ping(packet) => (after, r) == ping_effect(ctx, packet.payload),
    }
}

impl StatusPacketHandler {
    /// Reads the fields of the packet with `id` from the head of `data`.
    /// An id the state does not know is `UnknownPacket`. On an error `data`
    /// is left as it was.
    pub fn from_id(id: i32, data: &mut BytesMut) -> (r: Result<StatusPacketHandler, PacketError>)
        ensures
            match status_packet(id, contents(*old(data))) {
                Ok((packet, used)) => r matches Ok(handler) && handler@ == packet && contents(
                    *final(data),
                ) == contents(*old(data)).skip(used as int),
                Err(e) => r matches Err(f) && f == e && contents(*final(data)) == contents(
                    *old(data),
                ),
            },
    {
        if id == 0x00 {
            assert(contents(*data).skip(0) =~= contents(*data));
            match StatusRequestPacket::read(data) {
                Ok(packet) => Ok(StatusPacketHandler::StatusRequest(packet)),
                Err(e) => Err(e),
            }
        } else if id == 0x01 {
            match PingRequestPacket::read(data) {
                Ok(packet) => Ok(StatusPacketHandler::Ping(packet)),
                Err(e) => Err(e),
            }
        } else {
            Err(PacketError::UnknownPacket)
        }
    }

    /// Does what the packet asks for. A status request sends the status
    /// through the handlers of `bus` first.
    pub fn dispatch_packet<H: Fn(ServerListPingEvent) -> (
        ServerListPingEvent,
        Result<(), EventError>,
    )>(&self, ctx: &mut PlayerConnection, bus: &EventBus<H>) -> (r: Result<(), PacketError>)
        requires
            forall|i: int, e: ServerListPingEvent|
                0 <= i < bus@.len() ==> call_requires(bus@[i].handler, (e,)),
        ensures
            status_effect(old(ctx)@, self@, bus@, final(ctx)@, r),
    {
        match self {
            StatusPacketHandler::StatusRequest(packet) => packet.handle(ctx, bus),
            StatusPacketHandler::Ping(packet) => packet.handle(ctx),
        }
    }
}

} // verus!
