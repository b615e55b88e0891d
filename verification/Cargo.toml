[package]
name = "stake_cache"
version = "0.1.0"
edition = "2021"
publish = false

[dependencies]
solana-sdk = "=1.10.41"
serde = { version = "1", features = ["derive"] }
