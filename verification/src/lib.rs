//! Packet framing, relay bookkeeping and audio helpers for a low-latency
//! voice lounge that talks over UDP.
pub mod audio;
pub mod client;
pub mod config;
pub mod devices;
pub mod error;
pub mod packet;
pub mod relay;
pub mod server;
pub mod text;
pub mod wire;
