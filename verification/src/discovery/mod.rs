//! Finding other nodes.

pub mod lpd;
pub mod mqtt;
pub mod peer_cache;
