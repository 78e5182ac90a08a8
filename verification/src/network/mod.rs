//! The connection: its state, its packets and what each packet does to it.

pub mod event;
pub mod packets;
pub mod player_connection;
pub mod states;
