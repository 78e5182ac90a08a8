//! A server-side implementation of the Minecraft Java Edition wire protocol:
//! the wire codec, the per-connection state machine, the event bus and the
//! text-component model, with their behaviour stated in contracts.

pub mod buffer;
pub mod components;
pub mod config;
pub mod entity;
pub mod events;
pub mod json;
pub mod nbt;
pub mod protocol;
pub mod server;
pub mod text;
pub mod network;
pub mod world;
