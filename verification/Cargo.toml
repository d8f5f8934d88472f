[package]
name = "track_jobs"
version = "0.1.0"
edition = "2021"
publish = false

[dependencies]
serde = { version = "1", features = ["derive"] }
serde_json = "1"
tungstenite = "0.20"
tokio = { version = "1", features = ["rt-multi-thread", "macros"] }
async-std = "1"
futures = "0.3"
colored = "2"
log = "0.4"
