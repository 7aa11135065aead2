//! Putting a service under load and measuring it.

pub mod cli;
pub mod echo;
pub mod engine;
pub mod http;
pub mod metrics;
pub mod report;
pub mod scenario;
pub mod udp_tracker;
