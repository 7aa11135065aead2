//! Networking and application toolkit of a PNOS node.

pub mod addr;
pub mod bench;
pub mod bytes;
pub mod comm;
pub mod connector;
pub mod discovery;
pub mod dns;
pub mod net_agent;
pub mod numbers;
pub mod sorting;
pub mod strategy;
pub mod string_map;
pub mod text;
pub mod time;
pub mod transport;
pub mod traversal;
pub mod types;
