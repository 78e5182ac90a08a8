//! One client's connection: the bytes read and not yet framed, the state
//! the protocol is in, what the handshake and the login told about the
//! client, and the reply waiting to be sent.
//!
//! The connection reads and writes no socket. Bytes that arrived are handed
//! to [`PlayerConnection::feed`]; [`PlayerConnection::next_frame`] cuts whole
//! packets off them; a handler that answers leaves the framed answer in the
//! outbound buffer, from where the caller sends it.

use crate::buffer::{
    advance, as_slice, clear, contents, len, put_slice, reserve, split_to, with_capacity,
};
use crate::events::{EventBus, EventError, Registered};
use crate::network::event::ServerListPingEvent;
use crate::network::packets::configuration::{ClientInformationPacket, ClientInformationView};
use crate::network::states::configuration::{
    configuration_effect, configuration_packet, ConfigurationPacketHandler,
};
use crate::network::states::handshaking::{
    handshaking_effect, handshaking_packet, HandshakePacketHandler,
};
use crate::network::states::login::{login_effect, login_packet, LoginPacketHandler};
use crate::network::states::status::{status_effect, status_packet, StatusPacketHandler};
use crate::protocol::serial::{PacketError, PacketRead, PacketWrite};
use crate::protocol::var_int::{lemma_var_int_round_trip, parse_var_int, VarInt};
use bytes::BytesMut;
use vstd::prelude::*;

verus! {

/// The phases of a connection. The phase decides which packet ids mean
/// something.
#[derive(Debug, Clone, Copy, PartialEq, Eq, Structural)]
pub enum ConnectionState {
    Handshaking,
    Status,
    Login,
    Configuration,
    Play,
}

/// The most bytes a frame may announce: `2^21 - 1`.
pub const MAX_FRAME_BYTES: usize = 2097151;

/// The capacity each buffer of a connection starts with.
pub const INITIAL_CAPACITY: usize = 4096;

/// A connection as contracts see it.
pub struct PlayerConnectionView {
    /// The bytes that were read and are not yet framed.
    pub pending: Seq<u8>,
    /// The framed packet that waits to be sent, if any.
    pub outbound: Seq<u8>,
    pub state: ConnectionState,
    /// The protocol number the client named in its handshake; 0 before it.
    pub protocol: i32,
    pub username: Option<Seq<char>>,
    pub uuid: Option<u128>,
    /// The settings the client sent in the configuration state.
    pub client_information: Option<ClientInformationView>,
}

/// A client's connection.
pub struct PlayerConnection {
    buffer: BytesMut,
    writer: BytesMut,
    packet_buffer: BytesMut,
    state: ConnectionState,
    protocol: i32,
    username: Option<String>,
    uuid: Option<u128>,
    client_information: Option<ClientInformationPacket>,
}

/// What cutting one frame off the head of `bytes` gives: the frame's
/// payload and the bytes behind it.
///
/// A length prefix that is not all there yet, or a payload that is not, is
/// `Incomplete`. A prefix that runs past five bytes, a negative length and
/// a length over [`MAX_FRAME_BYTES`] are errors that no further byte cures.
pub open spec fn split_frame(bytes: Seq<u8>) -> Result<(Seq<u8>, Seq<u8>), PacketError> {
    match parse_var_int(bytes) {
        Err(e) => Err(e),
        Ok((length, used)) => {
            if length < 0 || length > MAX_FRAME_BYTES {
                Err(PacketError::BadLength)
            } else if bytes.len() < used + length {
                Err(PacketError::Incomplete)
            } else {
                Ok((bytes.subrange(used as int, used + length), bytes.skip(used + length)))
            }
        },
    }
}

/// A packet as it travels: its length as a variable-length integer, then
/// its bytes, which begin with the packet id.
pub open spec fn framed(packet: Seq<u8>) -> Seq<u8> {
    VarInt(packet.len() as i32).wire() + packet
}

/// `ctx` with nothing but `packet`, framed, to send.
pub open spec fn answering(ctx: PlayerConnectionView, packet: Seq<u8>) -> PlayerConnectionView {
    PlayerConnectionView { outbound: framed(packet), ..ctx }
}

/// `ctx` with nothing to send.
pub open spec fn silent(ctx: PlayerConnectionView) -> PlayerConnectionView {
    PlayerConnectionView { outbound: Seq::empty(), ..ctx }
}

impl View for PlayerConnection {
    type V = PlayerConnectionView;

    closed spec fn view(&self) -> PlayerConnectionView {
        PlayerConnectionView {
            pending: contents(self.buffer),
            outbound: contents(self.writer),
            state: self.state,
            protocol: self.protocol,
            username: self.username.deep_view(),
            uuid: self.uuid,
            client_information: self.client_information.deep_view(),
        }
    }
}

impl PlayerConnectionView {
    /// A connection that was just accepted.
    pub open spec fn fresh() -> PlayerConnectionView {
        PlayerConnectionView {
            pending: Seq::empty(),
            outbound: Seq::empty(),
            state: ConnectionState::Handshaking,
            protocol: 0,
            username: None,
            uuid: None,
            client_information: None,
        }
    }
}

impl PlayerConnection {
    /// A connection in the handshaking state, with nothing read, nothing to
    /// send, protocol number 0 and no identity.
    pub fn new() -> (connection: PlayerConnection)
        ensures
            connection@ == PlayerConnectionView::fresh(),
    {
        PlayerConnection {
            buffer: with_capacity(INITIAL_CAPACITY),
            writer: with_capacity(INITIAL_CAPACITY),
            packet_buffer: with_capacity(INITIAL_CAPACITY),
            state: ConnectionState::Handshaking,
            protocol: 0,
            username: None,
            uuid: None,
            client_information: None,
        }
    }

    /// The protocol number the client named; 0 before its handshake.
    pub fn get_protocol(&self) -> (protocol: i32)
        ensures
            protocol == self@.protocol,
    {
        self.protocol
    }

    /// The phase the connection is in.
    pub fn get_state(&self) -> (state: &ConnectionState)
        ensures
            *state == self@.state,
    {
        &self.state
    }

    /// Puts the connection into the phase `state`.
    pub fn set_state(&mut self, state: ConnectionState)
        ensures
            final(self)@ == (PlayerConnectionView { state, ..old(self)@ }),
    {
        self.state = state;
    }

    /// Takes note of the protocol number the client named.
    pub fn set_protocol(&mut self, protocol: i32)
        ensures
            final(self)@ == (PlayerConnectionView { protocol, ..old(self)@ }),
    {
        self.protocol = protocol;
    }

    /// Records who the client is. The first identity stays: once a name
    /// and an identifier are recorded, a second call changes nothing.
    pub fn register(&mut self, username: String, uuid: u128)
        ensures
            old(self)@.username is Some && old(self)@.uuid is Some ==> final(self)@ == old(self)@,
            !(old(self)@.username is Some && old(self)@.uuid is Some) ==> final(self)@ == (
            PlayerConnectionView { username: Some(username@), uuid: Some(uuid), ..old(self)@ }),
    {
        if self.username.is_some() && self.uuid.is_some() {
            return ;
        }
        self.username = Some(username);
        self.uuid = Some(uuid);
    }

    /// The name the client logged in under, once it has.
    pub fn get_username(&self) -> (username: Option<&String>)
        ensures
            username.deep_view() == self@.username,
    {
        self.username.as_ref()
    }

    /// The identifier the client logged in under, once it has.
    pub fn get_uuid(&self) -> (uuid: Option<u128>)
        ensures
            uuid == self@.uuid,
    {
        self.uuid
    }

    /// The settings the client sent, once it has sent them.
    pub fn get_client_information(&self) -> (information: Option<&ClientInformationPacket>)
        ensures
            information.deep_view() == self@.client_information,
    {
        self.client_information.as_ref()
    }

    /// Keeps the client's settings for later use.
    pub fn set_client_information(&mut self, information: ClientInformationPacket)
        ensures
            final(self)@ == (PlayerConnectionView {
                client_information: Some(information.deep_view()),
                ..old(self)@
            }),
    {
        self.client_information = Some(information);
    }

    /// How many more bytes [`PlayerConnection::feed`] can take.
    pub fn room(&self) -> (n: usize)
        ensures
            n == isize::MAX - self@.pending.len(),
    {
        crate::buffer::remaining_mut(&self.buffer)
    }

    /// Appends bytes that arrived from the client to those not yet framed.
    pub fn feed(&mut self, bytes: &[u8])
        requires
            old(self)@.pending.len() + bytes@.len() <= isize::MAX,
        ensures
            final(self)@ == (PlayerConnectionView {
                pending: old(self)@.pending + bytes@,
                ..old(self)@
            }),
    {
        put_slice(&mut self.buffer, bytes);
    }

    /// Appends bytes that arrived from the client, if the connection has
    /// room for them, and says whether it had.
    pub fn try_feed(&mut self, bytes: &[u8]) -> (fed: bool)
        ensures
            fed == (old(self)@.pending.len() + bytes@.len() <= isize::MAX),
            fed ==> final(self)@ == (PlayerConnectionView {
                pending: old(self)@.pending + bytes@,
                ..old(self)@
            }),
            !fed ==> final(self)@ == old(self)@,
    {
        if bytes.len() > self.room() {
            return false;
        }
        self.feed(bytes);
        true
    }

    /// Cuts the next whole frame off the bytes that were read.
    ///
    /// On success the frame's payload is returned and exactly the bytes
    /// behind the frame stay. On any error, `Incomplete` among them, the
    /// bytes that were read stay as they were, length prefix included.
    pub fn next_frame(&mut self) -> (r: Result<BytesMut, PacketError>)
        ensures
            match split_frame(old(self)@.pending) {
                Ok((payload, rest)) => r matches Ok(frame) && contents(frame) == payload
                    && final(self)@ == (PlayerConnectionView { pending: rest, ..old(self)@ }),
                Err(e) => r matches Err(f) && f == e && final(self)@ == old(self)@,
            },
    {
        let (length, used) = match VarInt::peek(as_slice(&self.buffer)) {
            Ok(x) => x,
            Err(e) => {
                return Err(e);
            },
        };
        if length.0 < 0 || length.0 > MAX_FRAME_BYTES as i32 {
            return Err(PacketError::BadLength);
        }
        let needed: usize = used + length.0 as usize;
        let held: usize = len(&self.buffer);
        if held < needed {
            reserve(&mut self.buffer, needed - held);
            return Err(PacketError::Incomplete);
        }
        let ghost before = contents(self.buffer);
        advance(&mut self.buffer, used);
        let frame = split_to(&mut self.buffer, length.0 as usize);
        proof {
            assert(contents(frame) =~= before.subrange(used as int, used + length.0));
            assert(contents(self.buffer) =~= before.skip(used + length.0));
        }
        Ok(frame)
    }

    /// Frames `packet` and leaves it in the outbound buffer, in place of
    /// whatever was there.
    ///
    /// A packet that cannot be written, or is longer than a frame may be,
    /// is an error; the outbound buffer is then empty.
    pub fn send_packet<P: PacketWrite>(&mut self, packet: &P) -> (r: Result<(), PacketError>)
        ensures
            match packet.wire_error() {
                Some(e) => r == Err::<(), PacketError>(e) && final(self)@ == silent(old(self)@),
                None => if packet.wire().len() <= MAX_FRAME_BYTES {
                    r is Ok && final(self)@ == answering(old(self)@, packet.wire())
                } else {
                    r == Err::<(), PacketError>(PacketError::BadLength) && final(self)@ == silent(
                        old(self)@,
                    )
                },
            },
    {
        clear(&mut self.packet_buffer);
        clear(&mut self.writer);
        match packet.check() {
            Err(e) => {
                return Err(e);
            },
            Ok(()) => {},
        }
        if packet.write(&mut self.packet_buffer).is_err() {
            clear(&mut self.packet_buffer);
            return Err(PacketError::BadLength);
        }
        assert(contents(self.packet_buffer) =~= packet.wire());
        let size: usize = len(&self.packet_buffer);
        if size > MAX_FRAME_BYTES {
            return Err(PacketError::BadLength);
        }
        proof {
            lemma_var_int_round_trip(size as i32, Seq::empty());
        }
        if VarInt(size as i32).write(&mut self.writer).is_err() {
            return Err(PacketError::BadLength);
        }
        put_slice(&mut self.writer, as_slice(&self.packet_buffer));
        assert(contents(self.writer) =~= framed(packet.wire()));
        Ok(())
    }

    /// The bytes that were read and are not yet framed.
    pub fn pending(&self) -> (bytes: &[u8])
        ensures
            bytes@ == self@.pending,
    {
        as_slice(&self.buffer)
    }

    /// The framed packet that waits to be sent; empty when none does.
    pub fn outbound(&self) -> (bytes: &[u8])
        ensures
            bytes@ == self@.outbound,
    {
        as_slice(&self.writer)
    }

    /// Empties the outbound buffer, once its bytes were sent.
    pub fn clear_outbound(&mut self)
        ensures
            final(self)@ == silent(old(self)@),
    {
        clear(&mut self.writer);
    }
}

/// Whether handling the packet in `frame` on `ctx`, with the handlers of
/// `bus`, can leave the connection as `after` with the verdict `r`.
///
/// The frame begins with the packet id. The state of the connection
/// decides what the id stands for. A packet that cannot be read, or whose
/// id the state does not know, leaves the connection as it was and is an
/// error. In the play state every packet is `NotImplemented`.
pub open spec fn packet_effect<H: Fn(ServerListPingEvent) -> (
    ServerListPingEvent,
    Result<(), EventError>,
)>(
    ctx: PlayerConnectionView,
    frame: Seq<u8>,
    bus: Seq<Registered<H>>,
    after: PlayerConnectionView,
    r: Result<(), PacketError>,
) -> bool {
    match parse_var_int(frame) {
        Err(e) => after == ctx && r == Err::<(), PacketError>(e),
        Ok((id, used)) => {
            let body = frame.skip(used as int);
            match ctx.state {
                ConnectionState::Handshaking => match handshaking_packet(id, body) {
                    Err(e) => after == ctx && r == Err::<(), PacketError>(e),
                    Ok((packet, _)) => (after, r) == handshaking_effect(ctx, packet),
                },
                ConnectionState::Status => match status_packet(id, body) {
                    Err(e) => after == ctx && r == Err::<(), PacketError>(e),
                    Ok((packet, _)) => status_effect(ctx, packet, bus, after, r),
                },
                ConnectionState::Login => match login_packet(ctx.protocol, id, body) {
                    Err(e) => after == ctx && r == Err::<(), PacketError>(e),
                    Ok((packet, _)) => (after, r) == login_effect(ctx, packet),
                },
                ConnectionState::Configuration => match configuration_packet(id, body) {
                    Err(e) => after == ctx && r == Err::<(), PacketError>(e),
                    Ok((packet, _)) => (after, r) == configuration_effect(ctx, packet),
                },
                ConnectionState::Play => after == ctx && r == Err::<(), PacketError>(
                    PacketError::NotImplemented,
                ),
            }
        },
    }
}


/// Whether one step on `ctx`, with the handlers of `bus`, can leave the
/// connection as `after` with the result `r`.
///
/// Where no whole frame has arrived, nothing changes and the result is
/// `Ok(false)`: the connection waits for more bytes. Where the bytes that
/// arrived cannot be a frame, nothing changes and the result is the error.
/// Else the frame is cut off, the outbound buffer emptied and the packet
/// handled; the result is `Ok(true)`, or the error of the handling.
pub open spec fn step_effect<H: Fn(ServerListPingEvent) -> (
    ServerListPingEvent,
    Result<(), EventError>,
)>(
    ctx: PlayerConnectionView,
    bus: Seq<Registered<H>>,
    after: PlayerConnectionView,
    r: Result<bool, PacketError>,
) -> bool {
    match split_frame(ctx.pending) {
        Err(e) => after == ctx && if e == PacketError::Incomplete {
            r == Ok::<bool, PacketError>(false)
        } else {
            r == Err::<bool, PacketError>(e)
        },
        Ok((payload, rest)) => exists|verdict: Result<(), PacketError>|
            #[trigger] packet_effect(
                silent(PlayerConnectionView { pending: rest, ..ctx }),
                payload,
                bus,
                after,
                verdict,
            ) && r == (match verdict {
                Ok(()) => Ok::<bool, PacketError>(true),
                Err(e) => Err::<bool, PacketError>(e),
            }),
    }
}

impl PlayerConnection {
    /// Handles the packet in `packet_data`: reads its id and its fields
    /// and does what it asks for. What was waiting to be sent is dropped
    /// first, so that afterwards the outbound buffer holds the answer to
    /// this packet, or nothing.
    pub fn handle_packet<H: Fn(ServerListPingEvent) -> (
        ServerListPingEvent,
        Result<(), EventError>,
    )>(&mut self, packet_data: &mut BytesMut, bus: &EventBus<H>) -> (r: Result<(), PacketError>)
        requires
            forall|i: int, e: ServerListPingEvent|
                0 <= i < bus@.len() ==> call_requires(bus@[i].handler, (e,)),
        ensures
            packet_effect(silent(old(self)@), contents(*old(packet_data)), bus@, final(self)@, r),
    {
        self.clear_outbound();
        let packet_id = match VarInt::read(packet_data) {
            Ok(id) => id.0,
            Err(e) => {
                return Err(e);
            },
        };
        match self.state {
            ConnectionState::Handshaking => {
                match HandshakePacketHandler::from_id(packet_id, packet_data) {
                    Ok(handler) => handler.dispatch_packet(self),
                    Err(e) => Err(e),
                }
            },
            ConnectionState::Status => {
                match StatusPacketHandler::from_id(packet_id, packet_data) {
                    Ok(handler) => handler.dispatch_packet(self, bus),
                    Err(e) => Err(e),
                }
            },
            ConnectionState::Login => {
                match LoginPacketHandler::from_id(self, packet_id, packet_data) {
                    Ok(handler) => handler.dispatch_packet(self),
                    Err(e) => Err(e),
                }
            },
            ConnectionState::Configuration => {
                match ConfigurationPacketHandler::from_id(packet_id, packet_data) {
                    Ok(handler) => handler.dispatch_packet(self),
                    Err(e) => Err(e),
                }
            },
            ConnectionState::Play => Err(PacketError::NotImplemented),
        }
    }

    /// Makes one step: cuts the next frame off the bytes that were read
    /// and handles its packet.
    ///
    /// `Ok(true)` says that a packet was handled and another may be
    /// waiting; `Ok(false)` that more bytes are needed first. An error ends
    /// the connection. Whatever the result, the outbound buffer holds what
    /// is to be sent before anything else is done.
    pub fn process<H: Fn(ServerListPingEvent) -> (ServerListPingEvent, Result<(), EventError>)>(
        &mut self,
        bus: &EventBus<H>,
    ) -> (r: Result<bool, PacketError>)
        requires
            forall|i: int, e: ServerListPingEvent|
                0 <= i < bus@.len() ==> call_requires(bus@[i].handler, (e,)),
        ensures
            step_effect(old(self)@, bus@, final(self)@, r),
    {
        let mut frame = match self.next_frame() {
            Ok(frame) => frame,
            Err(e) => {
                return match e {
                    PacketError::Incomplete => Ok(false),
                    _ => Err(e),
                };
            },
        };
        let verdict = self.handle_packet(&mut frame, bus);
        match verdict {
            Ok(()) => Ok(true),
            Err(e) => Err(e),
        }
    }
}

/// What is framed can be cut off again: a packet that is not longer than a
/// frame may be, framed and followed by anything, is cut off whole, and
/// what follows it is what stays.
pub proof fn lemma_frame_round_trip(packet: Seq<u8>, rest: Seq<u8>)
    requires
        packet.len() <= MAX_FRAME_BYTES,
    ensures
        split_frame(framed(packet) + rest) == Ok::<(Seq<u8>, Seq<u8>), PacketError>((packet, rest)),
{
    let length = packet.len() as i32;
    let prefix = VarInt(length).wire();
    let bytes = framed(packet) + rest;
    lemma_var_int_round_trip(length, packet + rest);
    assert(bytes =~= prefix + (packet + rest));
    let used = prefix.len();
    assert(bytes.subrange(used as int, used + length) =~= packet);
    assert(bytes.skip(used + length) =~= rest);
}

/// A frame cut off a buffer, the bytes of its length prefix before it and
/// the bytes that stay behind it make up the buffer again: nothing is lost
/// and nothing is read twice.
pub proof fn lemma_frame_partition(bytes: Seq<u8>)
    requires
        split_frame(bytes) is Ok,
    ensures
        ({
            let (payload, rest) = split_frame(bytes)->Ok_0;
            let used = parse_var_int(bytes)->Ok_0.1;
            bytes == bytes.take(used as int) + payload + rest
        }),
{
    let (payload, rest) = split_frame(bytes)->Ok_0;
    let used = parse_var_int(bytes)->Ok_0.1;
    assert(bytes =~= bytes.take(used as int) + payload + rest);
}

} // verus!
