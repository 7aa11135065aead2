//! Talking to the runtime and to other components.

pub mod app;
pub mod app_client;
pub mod client;
pub mod config;
pub mod discovery;
pub mod error;
pub mod events;
pub mod health;
pub mod lifecycle;
pub mod middleware;
pub mod registry;
pub mod ws;
