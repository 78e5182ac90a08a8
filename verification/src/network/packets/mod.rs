//! The packets of each protocol state, and what the packets a client
//! sends do to its connection.

pub mod configuration;
pub mod handshake;
pub mod login;
pub mod status;
pub mod status_builder;

use crate::network::player_connection::{PlayerConnection, PlayerConnectionView};
use crate::protocol::serial::PacketError;
use vstd::prelude::*;

verus! {

/// A packet that does something to the connection it arrives on.
pub trait PacketHandler {
    /// The connection after the packet was handled, and the verdict.
    spec fn handled(&self, ctx: PlayerConnectionView) -> (
        PlayerConnectionView,
        Result<(), PacketError>,
    );

    /// Handles the packet. A packet that is answered leaves its answer,
    /// framed, in the connection's outbound buffer.
    fn handle(&self, ctx: &mut PlayerConnection) -> (r: Result<(), PacketError>)
        ensures
            (final(ctx)@, r) == self.handled(old(ctx)@),
    ;
}

} // verus!
