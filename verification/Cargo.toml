[package]
name = "harbor"
version = "0.1.0"
edition = "2021"
publish = false

[dependencies]
bincode = "1"
chrono = { version = "0.4", default-features = false, features = ["clock", "serde"] }
derivative = "2"
env_logger = "0.10"
hex = "0.4"
local-ip-address = "0.6"
log = "0.4"
serde = { version = "1", features = ["derive"] }
sha2 = "0.10"
