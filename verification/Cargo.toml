[package]
name = "blockchain"
version = "0.1.0"
edition = "2021"
publish = false

[dependencies]
bincode = "1.3"
rust-crypto = "0.2.36"
serde = { version = "1.0", features = ["derive"] }
sled = "0.34"
tracing = "0.1"
