//! The packets each state of a connection understands: which packet a
//! packet id stands for, and what the packet does.

pub mod configuration;
pub mod handshaking;
pub mod login;
pub mod status;
