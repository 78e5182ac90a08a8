//! The packets of the login state.

use crate::buffer::contents;
use crate::protocol::serial::{saturating_sum, PacketError, PacketRead, PacketWrite};
use crate::protocol::property::{Property, PropertyView};
use crate::protocol::var_int::VarInt;
use crate::components::parse::legacy_component;
use crate::components::serialize::component_json;
use crate::components::Component;
use crate::json::json_text;
use crate::network::packets::PacketHandler;
use crate::network::player_connection::{answering, silent, ConnectionState, PlayerConnection, PlayerConnectionView};
use crate::protocol::types::{
    be_bytes, lemma_be_bytes_len, string_too_long, string_wire, MAX_STRING_BYTES,
};
use crate::protocol::vec::wire_items;
use crate::protocol::var_int::lemma_var_int_round_trip;
use bytes::BytesMut;
use vstd::prelude::*;

verus! {

/// The client names the player: a user name and a 128-bit identifier.
#[derive(Debug)]
pub struct LoginStartPacket {
    pub name: String,
    pub uuid: u128,
}

/// What a [`LoginStartPacket`] holds, as plain values.
pub struct LoginStartView {
    pub name: Seq<char>,
    pub uuid: u128,
}

impl DeepView for LoginStartPacket {
    type V = LoginStartView;

    open spec fn deep_view(&self) -> LoginStartView {
        LoginStartView {
            name: self.name.deep_view(),
            uuid: self.uuid.deep_view(),
        }
    }
}

impl PacketWrite for LoginStartPacket {
    open spec fn wire(&self) -> Seq<u8> {
        VarInt(0x00).wire() + self.name.wire() + self.uuid.wire()
    }

    open spec fn wire_error(&self) -> Option<PacketError> {
        self.name.wire_error()
    }

    fn check(&self) -> (r: Result<(), PacketError>) {
        self.name.check()
    }

    fn size(&self) -> (n: usize) {
        let n: usize = VarInt(0x00).size();
        let n: usize = saturating_sum(n, self.name.size());
        saturating_sum(n, self.uuid.size())
    }

    fn put(&self, buffer: &mut BytesMut) {
        VarInt(0x00).put(buffer);
        self.name.put(buffer);
        self.uuid.put(buffer);
        assert(contents(*buffer) =~= contents(*old(buffer)) + self.wire());
    }
}

impl PacketRead for LoginStartPacket {
    open spec fn parse(bytes: Seq<u8>) -> Result<(LoginStartView, nat), PacketError> {
        match String::parse(bytes) {
            Err(e) => Err(e),
            Ok((name, u0)) => {
                match u128::parse(bytes.skip(u0 as int)) {
                    Err(e) => Err(e),
                    Ok((uuid, u1)) => Ok((LoginStartView { name, uuid }, (u0 + u1) as nat)),
                }
            },
        }
    }

    fn decode(data: &[u8], start: usize) -> (r: Result<(LoginStartPacket, usize), PacketError>) {
        let ghost bytes = data@.skip(start as int);
        let (name, pos0) = match String::decode(data, start) {
            Ok(x) => x,
            Err(e) => {
                return Err(e);
            },
        };
        assert(bytes.skip(pos0 - start) =~= data@.skip(pos0 as int));
        let (uuid, pos1) = match u128::decode(data, pos0) {
            Ok(x) => x,
            Err(e) => {
                return Err(e);
            },
        };
        Ok((LoginStartPacket { name, uuid }, pos1))
    }
}

/// The client has taken note of the login's success. It has no fields.
#[derive(Debug, Clone, Copy)]
pub struct LoginAcknowledgedPacket {}

impl DeepView for LoginAcknowledgedPacket {
    type V = LoginAcknowledgedPacket;

    open spec fn deep_view(&self) -> LoginAcknowledgedPacket {
        *self
    }
}

impl PacketWrite for LoginAcknowledgedPacket {
    open spec fn wire(&self) -> Seq<u8> {
        VarInt(0x03).wire()
    }

    open spec fn wire_error(&self) -> Option<PacketError> {
        None
    }

    fn check(&self) -> (r: Result<(), PacketError>) {
        Ok(())
    }

    fn size(&self) -> (n: usize) {
        VarInt(0x03).size()
    }

    fn put(&self, buffer: &mut BytesMut) {
        VarInt(0x03).put(buffer)
    }
}

impl PacketRead for LoginAcknowledgedPacket {
    open spec fn parse(bytes: Seq<u8>) -> Result<(LoginAcknowledgedPacket, nat), PacketError> {
        Ok((LoginAcknowledgedPacket {}, 0))
    }

    fn decode(data: &[u8], start: usize) -> (r: Result<(LoginAcknowledgedPacket, usize), PacketError>) {
        Ok((LoginAcknowledgedPacket {}, start))
    }
}

/// The server accepts the player.
#[derive(Debug)]
pub struct LoginSuccessPacket {
    pub uuid: u128,
    pub name: String,
    pub properties: Vec<Property>,
}

/// What a [`LoginSuccessPacket`] holds, as plain values.
pub struct LoginSuccessView {
    pub uuid: u128,
    pub name: Seq<char>,
    pub properties: Seq<PropertyView>,
}

impl DeepView for LoginSuccessPacket {
    type V = LoginSuccessView;

    open spec fn deep_view(&self) -> LoginSuccessView {
        LoginSuccessView {
            uuid: self.uuid.deep_view(),
            name: self.name.deep_view(),
            properties: self.properties.deep_view(),
        }
    }
}

impl PacketWrite for LoginSuccessPacket {
    open spec fn wire(&self) -> Seq<u8> {
        VarInt(0x02).wire() + self.uuid.wire() + self.name.wire() + self.properties.wire()
    }

    open spec fn wire_error(&self) -> Option<PacketError> {
        match self.name.wire_error() {
            Some(e) => Some(e),
            None => {
                self.properties.wire_error()
            },
        }
    }

    fn check(&self) -> (r: Result<(), PacketError>) {
        match self.name.check() {
            Err(e) => {
                return Err(e);
            },
            Ok(()) => {},
        }
        self.properties.check()
    }

    fn size(&self) -> (n: usize) {
        let n: usize = VarInt(0x02).size();
        let n: usize = saturating_sum(n, self.uuid.size());
        let n: usize = saturating_sum(n, self.name.size());
        saturating_sum(n, self.properties.size())
    }

    fn put(&self, buffer: &mut BytesMut) {
        VarInt(0x02).put(buffer);
        self.uuid.put(buffer);
        self.name.put(buffer);
        self.properties.put(buffer);
        assert(contents(*buffer) =~= contents(*old(buffer)) + self.wire());
    }
}

impl PacketRead for LoginSuccessPacket {
    open spec fn parse(bytes: Seq<u8>) -> Result<(LoginSuccessView, nat), PacketError> {
        match u128::parse(bytes) {
            Err(e) => Err(e),
            Ok((uuid, u0)) => {
                match String::parse(bytes.skip(u0 as int)) {
                    Err(e) => Err(e),
                    Ok((name, u1)) => {
                        match Vec::<Property>::parse(bytes.skip((u0 + u1) as int)) {
                            Err(e) => Err(e),
                            Ok((properties, u2)) => Ok(
                                (
                                    LoginSuccessView {
                                        uuid,
                                        name,
                                        properties,
                                    },
                                    (u0 + u1 + u2) as nat,
                                ),
                            ),
                        }
                    },
                }
            },
        }
    }

    fn decode(data: &[u8], start: usize) -> (r: Result<(LoginSuccessPacket, usize), PacketError>) {
        let ghost bytes = data@.skip(start as int);
        let (uuid, pos0) = match u128::decode(data, start) {
            Ok(x) => x,
            Err(e) => {
                return Err(e);
            },
        };
        assert(bytes.skip(pos0 - start) =~= data@.skip(pos0 as int));
        let (name, pos1) = match String::decode(data, pos0) {
            Ok(x) => x,
            Err(e) => {
                return Err(e);
            },
        };
        assert(bytes.skip(pos1 - start) =~= data@.skip(pos1 as int));
        let (properties, pos2) = match Vec::<Property>::decode(data, pos1) {
            Ok(x) => x,
            Err(e) => {
                return Err(e);
            },
        };
        Ok((LoginSuccessPacket { uuid, name, properties }, pos2))
    }
}

/// The server turns the client away. The reason is a text component as JSON.
#[derive(Debug)]
pub struct LoginDisconnectionPacket {
    pub reason: String,
}

/// What a [`LoginDisconnectionPacket`] holds, as plain values.
pub struct LoginDisconnectionView {
    pub reason: Seq<char>,
}

impl DeepView for LoginDisconnectionPacket {
    type V = LoginDisconnectionView;

    open spec fn deep_view(&self) -> LoginDisconnectionView {
        LoginDisconnectionView {
            reason: self.reason.deep_view(),
        }
    }
}

impl PacketWrite for LoginDisconnectionPacket {
    open spec fn wire(&self) -> Seq<u8> {
        VarInt(0x00).wire() + self.reason.wire()
    }

    open spec fn wire_error(&self) -> Option<PacketError> {
        self.reason.wire_error()
    }

    fn check(&self) -> (r: Result<(), PacketError>) {
        self.reason.check()
    }

    fn size(&self) -> (n: usize) {
        let n: usize = VarInt(0x00).size();
        saturating_sum(n, self.reason.size())
    }

    fn put(&self, buffer: &mut BytesMut) {
        VarInt(0x00).put(buffer);
        self.reason.put(buffer);
        assert(contents(*buffer) =~= contents(*old(buffer)) + self.wire());
    }
}

impl PacketRead for LoginDisconnectionPacket {
    open spec fn parse(bytes: Seq<u8>) -> Result<(LoginDisconnectionView, nat), PacketError> {
        match String::parse(bytes) {
            Err(e) => Err(e),
            Ok((reason, u0)) => Ok((LoginDisconnectionView { reason }, u0)),
        }
    }

    fn decode(data: &[u8], start: usize) -> (r: Result<(LoginDisconnectionPacket, usize), PacketError>) {
        let (reason, pos0) = match String::decode(data, start) {
            Ok(x) => x,
            Err(e) => {
                return Err(e);
            },
        };
        Ok((LoginDisconnectionPacket { reason }, pos0))
    }
}

/// `ctx` with the identity it has after a client named `name` and `uuid`:
/// the first identity stays.
pub open spec fn registered(ctx: PlayerConnectionView, name: Seq<char>, uuid: u128) -> PlayerConnectionView {
    if ctx.username is Some && ctx.uuid is Some {
        ctx
    } else {
        PlayerConnectionView { username: Some(name), uuid: Some(uuid), ..ctx }
    }
}

/// The bytes of the packet that accepts the player `name` with `uuid` and
/// no properties.
pub open spec fn login_success_wire(uuid: u128, name: Seq<char>) -> Seq<u8> {
    VarInt(0x02).wire() + be_bytes(uuid as nat, 16) + string_wire(name) + VarInt(0).wire()
}

/// The bytes of the packet that turns a client away for `reason`.
pub open spec fn login_disconnect_wire(reason: Seq<char>) -> Seq<u8> {
    VarInt(0x00).wire() + string_wire(reason)
}

/// What a login start does: the connection records who the client is and
/// accepts the player.
pub open spec fn login_start_effect(ctx: PlayerConnectionView, packet: LoginStartView) -> (
    PlayerConnectionView,
    Result<(), PacketError>,
) {
    let known = registered(ctx, packet.name, packet.uuid);
    if string_too_long(packet.name) {
        (silent(known), Err(PacketError::StringTooLong))
    } else {
        (answering(known, login_success_wire(packet.uuid, packet.name)), Ok(()))
    }
}

/// What the client's acknowledgement does: the connection goes on to the
/// configuration state.
pub open spec fn login_acknowledged_effect(ctx: PlayerConnectionView) -> (
    PlayerConnectionView,
    Result<(), PacketError>,
) {
    (PlayerConnectionView { state: ConnectionState::Configuration, ..ctx }, Ok(()))
}

/// The markup of the reason a client of another protocol is turned away
/// with.
pub const MISMATCH_MARKUP: &'static str = "&cInvalid version please update your client.";

/// The reason a client that speaks `protocol` is turned away with: a text
/// component, as JSON, made for that protocol.
pub open spec fn mismatch_reason(protocol: i32) -> Seq<char> {
    json_text(component_json(legacy_component(MISMATCH_MARKUP@).with_protocol(protocol)))
}

/// What turning a client away for `reason` does: the client is told the
/// reason and the connection ends with `VersionMismatch`.
pub open spec fn turned_away(ctx: PlayerConnectionView, reason: Seq<char>) -> (
    PlayerConnectionView,
    Result<(), PacketError>,
) {
    if string_too_long(reason) {
        (silent(ctx), Err(PacketError::StringTooLong))
    } else {
        (answering(ctx, login_disconnect_wire(reason)), Err(PacketError::VersionMismatch))
    }
}

/// What a packet does in the login state when the client speaks another
/// protocol than the server: the client is told so and turned away.
pub open spec fn version_mismatch_effect(ctx: PlayerConnectionView) -> (
    PlayerConnectionView,
    Result<(), PacketError>,
) {
    turned_away(ctx, mismatch_reason(ctx.protocol))
}

/// A string that fits the wire fits a frame, whatever single id stands
/// before it.
pub proof fn lemma_short_packet_fits(id: i32, text: Seq<char>)
    requires
        !string_too_long(text),
    ensures
        (VarInt(id).wire() + string_wire(text)).len() <= MAX_STRING_BYTES + 10,
{
    lemma_var_int_round_trip(id, Seq::empty());
    lemma_var_int_round_trip(vstd::utf8::encode_utf8(text).len() as i32, Seq::empty());
}

impl LoginDisconnectionPacket {
    /// The packet that turns away a client that speaks `protocol`.
    pub fn version_mismatch(protocol: i32) -> (packet: LoginDisconnectionPacket)
        ensures
            packet.reason@ == mismatch_reason(protocol),
    {
        let reason = Component::legacy_text(MISMATCH_MARKUP).protocol(protocol);
        LoginDisconnectionPacket { reason: reason.to_json() }
    }

    /// Sends this packet and ends the connection.
    pub fn turn_away(&self, ctx: &mut PlayerConnection) -> (r: Result<(), PacketError>)
        ensures
            (final(ctx)@, r) == turned_away(old(ctx)@, self.reason@),
    {
        proof {
            if !string_too_long(self.reason@) {
                lemma_short_packet_fits(0x00, self.reason@);
            }
        }
        match ctx.send_packet(self) {
            Ok(()) => Err(PacketError::VersionMismatch),
            Err(e) => Err(e),
        }
    }
}

impl PacketHandler for LoginStartPacket {
    open spec fn handled(&self, ctx: PlayerConnectionView) -> (
        PlayerConnectionView,
        Result<(), PacketError>,
    ) {
        login_start_effect(ctx, self.deep_view())
    }

    fn handle(&self, ctx: &mut PlayerConnection) -> (r: Result<(), PacketError>) {
        ctx.register(self.name.clone(), self.uuid);
        let success = LoginSuccessPacket {
            uuid: self.uuid,
            name: self.name.clone(),
            properties: Vec::new(),
        };
        proof {
            assert(wire_items(success.properties@) =~= Seq::<u8>::empty());
            assert(success.wire() =~= login_success_wire(self.uuid, self.name@));
            lemma_be_bytes_len(self.uuid as nat, 16);
            lemma_var_int_round_trip(0x02, Seq::empty());
            lemma_var_int_round_trip(0, Seq::empty());
            if !string_too_long(self.name@) {
                lemma_short_packet_fits(0x02, self.name@);
            }
        }
        match ctx.send_packet(&success) {
            Ok(()) => Ok(()),
            Err(e) => Err(e),
        }
    }
}

impl PacketHandler for LoginAcknowledgedPacket {
    open spec fn handled(&self, ctx: PlayerConnectionView) -> (
        PlayerConnectionView,
        Result<(), PacketError>,
    ) {
        login_acknowledged_effect(ctx)
    }

    fn handle(&self, ctx: &mut PlayerConnection) -> (r: Result<(), PacketError>) {
        ctx.set_state(ConnectionState::Configuration);
        Ok(())
    }
}

} // verus!
