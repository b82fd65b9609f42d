[package]
name = "pulse"
version = "0.1.0"
edition = "2021"
publish = false

[dependencies]
bincode = "1"
serde = { version = "1", features = ["derive"] }
serde_bytes = "0.11"
socket2 = "0.5"
clap = { version = "4", features = ["derive"] }
crossbeam-channel = "0.5"
parking_lot = "0.12"
spin_sleep = "1"
strum = { version = "0.26", features = ["derive"] }
thiserror = "1"
log = "0.4"
env_logger = "0.11"
cpal = "0.15"
opus = "0.3"
packet_enum = "*"
