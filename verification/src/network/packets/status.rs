//! The packets of the status state: the server-list request and the ping,
//! with their answers.

use crate::buffer::contents;
use crate::protocol::serial::{saturating_sum, PacketError, PacketRead, PacketWrite};
use crate::protocol::var_int::VarInt;
use crate::components::parse::modern_component;
use crate::components::Component;
use crate::events::{emission, EventBus, EventError, Registered};
use crate::json::json_text;
use crate::network::event::ServerListPingEvent;
use crate::network::packets::login::lemma_short_packet_fits;
use crate::network::packets::status_builder::{status_json, StatusBuilder, StatusView};
use crate::network::packets::PacketHandler;
use crate::network::player_connection::{answering, silent, PlayerConnection, PlayerConnectionView};
use crate::protocol::types::{lemma_be_bytes_len, string_too_long, string_wire};
use crate::protocol::var_int::lemma_var_int_round_trip;
use bytes::BytesMut;
use vstd::prelude::*;

verus! {

/// Asks for the server's status. It has no fields.
#[derive(Debug, Clone, Copy)]
pub struct StatusRequestPacket {}

impl DeepView for StatusRequestPacket {
    type V = StatusRequestPacket;

    open spec fn deep_view(&self) -> StatusRequestPacket {
        *self
    }
}

impl PacketWrite for StatusRequestPacket {
    open spec fn wire(&self) -> Seq<u8> {
        VarInt(0x00).wire()
    }

    open spec fn wire_error(&self) -> Option<PacketError> {
        None
    }

    fn check(&self) -> (r: Result<(), PacketError>) {
        Ok(())
    }

    fn size(&self) -> (n: usize) {
        VarInt(0x00).size()
    }

    fn put(&self, buffer: &mut BytesMut) {
        VarInt(0x00).put(buffer)
    }
}

impl PacketRead for StatusRequestPacket {
    open spec fn parse(bytes: Seq<u8>) -> Result<(StatusRequestPacket, nat), PacketError> {
        Ok((StatusRequestPacket {}, 0))
    }

    fn decode(data: &[u8], start: usize) -> (r: Result<(StatusRequestPacket, usize), PacketError>) {
        Ok((StatusRequestPacket {}, start))
    }
}

/// The status, as JSON text.
#[derive(Debug)]
pub struct StatusResponsePacket {
    pub pay_load: String,
}

/// What a [`StatusResponsePacket`] holds, as plain values.
pub struct StatusResponseView {
    pub pay_load: Seq<char>,
}

impl DeepView for StatusResponsePacket {
    type V = StatusResponseView;

    open spec fn deep_view(&self) -> StatusResponseView {
        StatusResponseView {
            pay_load: self.pay_load.deep_view(),
        }
    }
}

impl PacketWrite for StatusResponsePacket {
    open spec fn wire(&self) -> Seq<u8> {
        VarInt(0x00).wire() + self.pay_load.wire()
    }

    open spec fn wire_error(&self) -> Option<PacketError> {
        self.pay_load.wire_error()
    }

    fn check(&self) -> (r: Result<(), PacketError>) {
        self.pay_load.check()
    }

    fn size(&self) -> (n: usize) {
        let n: usize = VarInt(0x00).size();
        saturating_sum(n, self.pay_load.size())
    }

    fn put(&self, buffer: &mut BytesMut) {
        VarInt(0x00).put(buffer);
        self.pay_load.put(buffer);
        assert(contents(*buffer) =~= contents(*old(buffer)) + self.wire());
    }
}

impl PacketRead for StatusResponsePacket {
    open spec fn parse(bytes: Seq<u8>) -> Result<(StatusResponseView, nat), PacketError> {
        match String::parse(bytes) {
            Err(e) => Err(e),
            Ok((pay_load, u0)) => Ok((StatusResponseView { pay_load }, u0)),
        }
    }

    fn decode(data: &[u8], start: usize) -> (r: Result<(StatusResponsePacket, usize), PacketError>) {
        let (pay_load, pos0) = match String::decode(data, start) {
            Ok(x) => x,
            Err(e) => {
                return Err(e);
            },
        };
        Ok((StatusResponsePacket { pay_load }, pos0))
    }
}

/// A number for the server to send back.
#[derive(Debug)]
pub struct PingRequestPacket {
    pub payload: i64,
}

/// What a [`PingRequestPacket`] holds, as plain values.
pub struct PingRequestView {
    pub payload: i64,
}

impl DeepView for PingRequestPacket {
    type V = PingRequestView;

    open spec fn deep_view(&self) -> PingRequestView {
        PingRequestView {
            payload: self.payload.deep_view(),
        }
    }
}

impl PacketWrite for PingRequestPacket {
    open spec fn wire(&self) -> Seq<u8> {
        VarInt(0x01).wire() + self.payload.wire()
    }

    open spec fn wire_error(&self) -> Option<PacketError> {
        None
    }

    fn check(&self) -> (r: Result<(), PacketError>) {
        Ok(())
    }

    fn size(&self) -> (n: usize) {
        let n: usize = VarInt(0x01).size();
        saturating_sum(n, self.payload.size())
    }

    fn put(&self, buffer: &mut BytesMut) {
        VarInt(0x01).put(buffer);
        self.payload.put(buffer);
        assert(contents(*buffer) =~= contents(*old(buffer)) + self.wire());
    }
}

impl PacketRead for PingRequestPacket {
    open spec fn parse(bytes: Seq<u8>) -> Result<(PingRequestView, nat), PacketError> {
        match i64::parse(bytes) {
            Err(e) => Err(e),
            Ok((payload, u0)) => Ok((PingRequestView { payload }, u0)),
        }
    }

    fn decode(data: &[u8], start: usize) -> (r: Result<(PingRequestPacket, usize), PacketError>) {
        let (payload, pos0) = match i64::decode(data, start) {
            Ok(x) => x,
            Err(e) => {
                return Err(e);
            },
        };
        Ok((PingRequestPacket { payload }, pos0))
    }
}

/// The number of a ping request, sent back.
#[derive(Debug)]
pub struct PingResponsePacket {
    pub payload: i64,
}

/// What a [`PingResponsePacket`] holds, as plain values.
pub struct PingResponseView {
    pub payload: i64,
}

impl DeepView for PingResponsePacket {
    type V = PingResponseView;

    open spec fn deep_view(&self) -> PingResponseView {
        PingResponseView {
            payload: self.payload.deep_view(),
        }
    }
}

impl PacketWrite for PingResponsePacket {
    open spec fn wire(&self) -> Seq<u8> {
        VarInt(0x01).wire() + self.payload.wire()
    }

    open spec fn wire_error(&self) -> Option<PacketError> {
        None
    }

    fn check(&self) -> (r: Result<(), PacketError>) {
        Ok(())
    }

    fn size(&self) -> (n: usize) {
        let n: usize = VarInt(0x01).size();
        saturating_sum(n, self.payload.size())
    }

    fn put(&self, buffer: &mut BytesMut) {
        VarInt(0x01).put(buffer);
        self.payload.put(buffer);
        assert(contents(*buffer) =~= contents(*old(buffer)) + self.wire());
    }
}

impl PacketRead for PingResponsePacket {
    open spec fn parse(bytes: Seq<u8>) -> Result<(PingResponseView, nat), PacketError> {
        match i64::parse(bytes) {
            Err(e) => Err(e),
            Ok((payload, u0)) => Ok((PingResponseView { payload }, u0)),
        }
    }

    fn decode(data: &[u8], start: usize) -> (r: Result<(PingResponsePacket, usize), PacketError>) {
        let (payload, pos0) = match i64::decode(data, start) {
            Ok(x) => x,
            Err(e) => {
                return Err(e);
            },
        };
        Ok((PingResponsePacket { payload }, pos0))
    }
}

/// The markup of the message a status shows before any handler changes it.
pub const STATUS_MARKUP: &'static str =
    "<red>reds<green>greens<bold><blue>blue\n<gradient:red:blue>Hello World</gradient>";

/// The status a server announces to a client that speaks `protocol`,
/// before any handler has seen it.
pub open spec fn announced_status(protocol: i32) -> StatusView {
    StatusView { motd: modern_component(STATUS_MARKUP@, protocol), ..StatusView::initial() }
}

/// The bytes of the packet that carries the status `payload`.
pub open spec fn status_response_wire(payload: Seq<char>) -> Seq<u8> {
    VarInt(0x00).wire() + string_wire(payload)
}

/// What the connection does with the status the handlers left and their
/// verdict. Where a handler failed, nothing is sent. Else the status is
/// sent as JSON, if its text fits the wire.
pub open spec fn status_reply(ctx: PlayerConnectionView, status: StatusView, delivered: bool) -> (
    PlayerConnectionView,
    Result<(), PacketError>,
) {
    let payload = json_text(status_json(status));
    if !delivered {
        (ctx, Ok(()))
    } else if string_too_long(payload) {
        (silent(ctx), Err(PacketError::StringTooLong))
    } else {
        (answering(ctx, status_response_wire(payload)), Ok(()))
    }
}

/// Whether a status request on `ctx`, with the handlers of `bus`, can
/// leave the connection as `after` with the verdict `r`: the announced
/// status goes through the handlers as an event, and what they leave of it
/// is sent.
pub open spec fn status_request_effect<H: Fn(ServerListPingEvent) -> (
    ServerListPingEvent,
    Result<(), EventError>,
)>(
    ctx: PlayerConnectionView,
    bus: Seq<Registered<H>>,
    after: PlayerConnectionView,
    r: Result<(), PacketError>,
) -> bool {
    exists|first: ServerListPingEvent, outcome: (ServerListPingEvent, Result<(), EventError>)|
        first.status@ == announced_status(ctx.protocol) && !first.is_canceled && #[trigger] emission(
            bus,
            0,
            first,
            outcome,
        ) && (after, r) == status_reply(ctx, outcome.0.status@, outcome.1 is Ok)
}

/// What a ping does: the number comes back.
pub open spec fn ping_effect(ctx: PlayerConnectionView, payload: i64) -> (
    PlayerConnectionView,
    Result<(), PacketError>,
) {
    (answering(ctx, PingResponsePacket { payload }.wire()), Ok(()))
}

impl StatusRequestPacket {
    /// Answers the request: the status goes through the handlers of `bus`
    /// and is sent as they leave it.
    pub fn handle<H: Fn(ServerListPingEvent) -> (ServerListPingEvent, Result<(), EventError>)>(
        &self,
        ctx: &mut PlayerConnection,
        bus: &EventBus<H>,
    ) -> (r: Result<(), PacketError>)
        requires
            forall|i: int, e: ServerListPingEvent|
                0 <= i < bus@.len() ==> call_requires(bus@[i].handler, (e,)),
        ensures
            status_request_effect(old(ctx)@, bus@, final(ctx)@, r),
    {
        let protocol = ctx.get_protocol();
        let status = StatusBuilder::new().protocol(protocol).motd(
            Component::modern_text_as_protocol(STATUS_MARKUP, protocol),
        );
        let first = ServerListPingEvent::new(status);
        let (last, verdict) = bus.emit(first);
        match verdict {
            Ok(()) => {
                let packet = last.status.build();
                proof {
                    if !string_too_long(packet.pay_load@) {
                        lemma_short_packet_fits(0x00, packet.pay_load@);
                    }
                }
                let r = match ctx.send_packet(&packet) {
                    Ok(()) => Ok(()),
                    Err(e) => Err(e),
                };
                proof {
                    assert(emission(bus@, 0, first, (last, verdict)));
                    assert((ctx@, r) == status_reply(old(ctx)@, last.status@, true));
                }
                r
            },
            Err(_) => {
                proof {
                    assert(emission(bus@, 0, first, (last, verdict)));
                }
                Ok(())
            },
        }
    }
}

impl PacketHandler for PingRequestPacket {
    open spec fn handled(&self, ctx: PlayerConnectionView) -> (
        PlayerConnectionView,
        Result<(), PacketError>,
    ) {
        ping_effect(ctx, self.payload)
    }

    fn handle(&self, ctx: &mut PlayerConnection) -> (r: Result<(), PacketError>) {
        let response = PingResponsePacket { payload: self.payload };
        proof {
            lemma_var_int_round_trip(0x01, Seq::empty());
            lemma_be_bytes_len(crate::protocol::types::twos(self.payload as int, 8), 8);
        }
        match ctx.send_packet(&response) {
            Ok(()) => Ok(()),
            Err(e) => Err(e),
        }
    }
}

} // verus!
