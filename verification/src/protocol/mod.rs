//! The wire codec: errors, variable-length integers, primitives, strings
//! and the packets built from them.

pub mod property;
pub mod serial;
pub mod types;
pub mod var_int;
pub mod vec;
