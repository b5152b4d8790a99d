[package]
name = "agent-bridge"
version = "0.1.0"
edition = "2021"
publish = false

[dependencies]
anyhow = "1"
chrono = { version = "0.4", features = ["serde"] }
dunce = "1"
fs2 = "0.4"
libc = "0.2"
parking_lot = "0.12"
reqwest = { version = "0.12", default-features = false }
serde = { version = "1", features = ["derive"] }
serde_json = "1"
sha2 = "0.10"
tokio = { version = "1", features = ["process", "time", "rt", "macros"] }
uuid = { version = "1", features = ["v4", "serde"] }
walkdir = "2"
