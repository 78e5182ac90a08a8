//! The one packet of the handshaking state: the client names the protocol
//! it speaks and the state it wants next.

use crate::buffer::contents;
use crate::protocol::serial::{saturating_sum, PacketError, PacketRead, PacketWrite};
use crate::protocol::var_int::VarInt;
use crate::network::packets::PacketHandler;
use crate::network::player_connection::{ConnectionState, PlayerConnection, PlayerConnectionView};
use bytes::BytesMut;
use vstd::prelude::*;

verus! {

/// The client's opening packet.
#[derive(Debug)]
pub struct HandshakePacket {
    pub protocol_version: VarInt,
    pub server_address: String,
    pub server_port: u16,
    /// `1` asks for the status state, `2` for login, `3` for a transfer.
    pub next_state: VarInt,
}

/// What a [`HandshakePacket`] holds, as plain values.
pub struct HandshakeView {
    pub protocol_version: VarInt,
    pub server_address: Seq<char>,
    pub server_port: u16,
    pub next_state: VarInt,
}

impl DeepView for HandshakePacket {
    type V = HandshakeView;

    open spec fn deep_view(&self) -> HandshakeView {
        HandshakeView {
            protocol_version: self.protocol_version.deep_view(),
            server_address: self.server_address.deep_view(),
            server_port: self.server_port.deep_view(),
            next_state: self.next_state.deep_view(),
        }
    }
}

impl PacketWrite for HandshakePacket {
    open spec fn wire(&self) -> Seq<u8> {
        VarInt(0x00).wire() + self.protocol_version.wire() + self.server_address.wire()
            + self.server_port.wire() + self.next_state.wire()
    }

    open spec fn wire_error(&self) -> Option<PacketError> {
        self.server_address.wire_error()
    }

    fn check(&self) -> (r: Result<(), PacketError>) {
        self.server_address.check()
    }

    fn size(&self) -> (n: usize) {
        let n: usize = VarInt(0x00).size();
        let n: usize = saturating_sum(n, self.protocol_version.size());
        let n: usize = saturating_sum(n, self.server_address.size());
        let n: usize = saturating_sum(n, self.server_port.size());
        saturating_sum(n, self.next_state.size())
    }

    fn put(&self, buffer: &mut BytesMut) {
        VarInt(0x00).put(buffer);
        self.protocol_version.put(buffer);
        self.server_address.put(buffer);
        self.server_port.put(buffer);
        self.next_state.put(buffer);
        assert(contents(*buffer) =~= contents(*old(buffer)) + self.wire());
    }
}

impl PacketRead for HandshakePacket {
    open spec fn parse(bytes: Seq<u8>) -> Result<(HandshakeView, nat), PacketError> {
        match VarInt::parse(bytes) {
            Err(e) => Err(e),
            Ok((protocol_version, u0)) => {
                match String::parse(bytes.skip(u0 as int)) {
                    Err(e) => Err(e),
                    Ok((server_address, u1)) => {
                        match u16::parse(bytes.skip((u0 + u1) as int)) {
                            Err(e) => Err(e),
                            Ok((server_port, u2)) => {
                                match VarInt::parse(bytes.skip((u0 + u1 + u2) as int)) {
                                    Err(e) => Err(e),
                                    Ok((next_state, u3)) => Ok(
                                        (
                                            HandshakeView {
                                                protocol_version,
                                                server_address,
                                                server_port,
                                                next_state,
                                            },
                                            (u0 + u1 + u2 + u3) as nat,
                                        ),
                                    ),
                                }
                            },
                        }
                    },
                }
            },
        }
    }

    fn decode(data: &[u8], start: usize) -> (r: Result<(HandshakePacket, usize), PacketError>) {
        let ghost bytes = data@.skip(start as int);
        let (protocol_version, pos0) = match VarInt::decode(data, start) {
            Ok(x) => x,
            Err(e) => {
                return Err(e);
            },
        };
        assert(bytes.skip(pos0 - start) =~= data@.skip(pos0 as int));
        let (server_address, pos1) = match String::decode(data, pos0) {
            Ok(x) => x,
            Err(e) => {
                return Err(e);
            },
        };
        assert(bytes.skip(pos1 - start) =~= data@.skip(pos1 as int));
        let (server_port, pos2) = match u16::decode(data, pos1) {
            Ok(x) => x,
            Err(e) => {
                return Err(e);
            },
        };
        assert(bytes.skip(pos2 - start) =~= data@.skip(pos2 as int));
        let (next_state, pos3) = match VarInt::decode(data, pos2) {
            Ok(x) => x,
            Err(e) => {
                return Err(e);
            },
        };
        Ok((HandshakePacket { protocol_version, server_address, server_port, next_state }, pos3))
    }
}

/// What a handshake does: the connection takes note of the protocol
/// number the client names. Where the client asks for the status state or
/// for login, the connection goes there. Any other wish, a transfer among
/// them, is refused.
pub open spec fn handshake_effect(ctx: PlayerConnectionView, packet: HandshakeView) -> (
    PlayerConnectionView,
    Result<(), PacketError>,
) {
    let named = PlayerConnectionView { protocol: packet.protocol_version.0, ..ctx };
    if packet.next_state.0 == 1 {
        (PlayerConnectionView { state: ConnectionState::Status, ..named }, Ok(()))
    } else if packet.next_state.0 == 2 {
        (PlayerConnectionView { state: ConnectionState::Login, ..named }, Ok(()))
    } else {
        (named, Err(PacketError::InvalidData))
    }
}

impl PacketHandler for HandshakePacket {
    open spec fn handled(&self, ctx: PlayerConnectionView) -> (
        PlayerConnectionView,
        Result<(), PacketError>,
    ) {
        handshake_effect(ctx, self.deep_view())
    }

    fn handle(&self, ctx: &mut PlayerConnection) -> (r: Result<(), PacketError>) {
        ctx.set_protocol(self.protocol_version.0);
        if self.next_state.0 == 1 {
            ctx.set_state(ConnectionState::Status);
            Ok(())
        } else if self.next_state.0 == 2 {
            ctx.set_state(ConnectionState::Login);
            Ok(())
        } else {
            Err(PacketError::InvalidData)
        }
    }
}

} // verus!
