[package]
name = "pnos_sdk"
version = "0.1.0"
edition = "2021"
publish = false

[dependencies]
anyhow = "1"
async-trait = "0.1"
axum = "0.7"
bincode = "1.3"
chrono = "0.4"
clap = { version = "4", features = ["derive"] }
futures-util = "0.3"
hdrhistogram = "7"
hex = "0.4"
hickory-resolver = "0.24"
hkdf = "0.12"
igd = "0.12"
iroh-base = { version = "*", default-features = false, features = ["key"] }
parking_lot = "0.12"
rand = "0.8"
reqwest = { version = "0.12", default-features = false, features = ["json"] }
rumqttc = { version = "0.24", default-features = false }
rusqlite = { version = "0.31", features = ["bundled"] }
serde = { version = "1", features = ["derive"] }
serde_json = "1"
sha2 = "0.10"
socket2 = "0.5"
thiserror = "1"
tokio = { version = "1", features = ["full"] }
tokio-tungstenite = "0.24"
tracing = "0.1"
tracing-subscriber = { version = "0.3", features = ["env-filter"] }
url = "2"
