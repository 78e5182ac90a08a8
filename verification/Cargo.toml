[package]
name = "iridium"
version = "0.1.0"
edition = "2021"
publish = false

[dependencies]
ahash = "*"
async-trait = "*"
byteorder = "*"
bytes = "*"
dashmap = "*"
log = "*"
parking_lot = "*"
serde = { version = "*", features = ["derive"] }
serde_json = "*"
serde_yaml = "*"
simple_logger = "*"
time = { version = "*", features = ["macros"] }
tokio = { version = "*", features = ["full"] }
uuid = { version = "*", features = ["v4"] }
