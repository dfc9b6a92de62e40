[package]
name = "fabio_claw"
version = "0.1.0"
edition = "2021"
publish = false

[dependencies]
chrono = "=0.4.45"
cron = "=0.12.1"
serde = { version = "=1.0.229", features = ["derive"] }
serde_json = "=1.0.154"
base64 = "=0.22.1"
ed25519-dalek = { version = "=2.2.0", features = ["rand_core"] }
hex = "=0.4.3"
rand = "=0.8.8"
evalexpr = "=11.3.1"
tokio = { version = "=1.54.1", features = ["full"] }
axum = "=0.7.9"
rusqlite = { version = "=0.31.0", features = ["bundled"] }
reqwest = { version = "=0.12.28", default-features = false, features = ["json", "rustls-tls"] }
thiserror = "=1.0.69"
tower-http = { version = "0.5", features = ["cors"] }
ureq = { version = "2", features = ["json"] }
