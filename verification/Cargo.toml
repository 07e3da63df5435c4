[package]
name = "glowback"
version = "0.1.0"
edition = "2021"
publish = false

[dependencies]
anyhow = "1"
arrow = "54"
chrono = "0.4"
crossbeam-channel = "0.5"
csv = "1"
dashmap = "6"
dirs = "5"
num-traits = "0.2"
parking_lot = "0.12"
parquet = "54"
rand = "0.8"
reqwest = { version = "0.12", default-features = false, features = ["blocking", "json"] }
serde = { version = "1", features = ["derive"] }
serde_json = "1"
thiserror = "1"
tokio = { version = "1", features = ["rt-multi-thread", "net", "io-util", "macros"] }
uuid = { version = "1", features = ["v4"] }
