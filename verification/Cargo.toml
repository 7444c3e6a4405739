[package]
name = "poker_engine"
version = "0.1.0"
edition = "2021"
publish = false

[dependencies]
blake3 = "1"
rand = "0.8"
sha2 = "0.10"
serde = { version = "1", features = ["derive"] }
thiserror = "1"
