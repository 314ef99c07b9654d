//! The pi agent: its wire protocol, its process and its session files.

pub mod events;
pub mod fields;
pub mod process;
pub mod resolve;
pub mod rpc;
pub mod sessions;
pub mod wire;
