[package]
name = "pumpfun_bundler_stealth"
version = "0.1.0"
edition = "2021"
publish = false

[dependencies]
anyhow = "1"
bs58 = "0.5"
chrono = "0.4"
clap = { version = "4", features = ["derive"] }
env_logger = "0.10"
log = "0.4"
rand = "0.8"
reqwest = { version = "0.11", features = ["json"] }
serde = { version = "1", features = ["derive"] }
serde_json = "1"
solana-sdk = "1.18"
tokio = { version = "1", features = ["full"] }
uuid = { version = "1", features = ["v4"] }
