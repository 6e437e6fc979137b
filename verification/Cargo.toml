[package]
name = "nifty_cli"
version = "0.1.0"
edition = "2021"
publish = false

[dependencies]
nifty-asset = { version = "=0.6.1", features = ["serde"] }
solana-program = "1"
solana-sdk = "1"
bincode = "=1.3.3"
anyhow = "=1.0.104"
retry = "=2.2.0"
serde_json = "=1.0.154"
tokio = { version = "=1.54.1", features = ["rt-multi-thread", "macros", "time", "sync"] }
indicatif = "=0.17.11"
