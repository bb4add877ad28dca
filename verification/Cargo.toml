[package]
name = "xape_miner"
version = "0.1.0"
edition = "2021"
publish = false

[dependencies]
base64 = "0.13"
bincode = "1"
borsh = "0.9"
csv = "1"
gumdrop = "0.8"
mpl-token-metadata = "=1.13.2"
reqwest = { version = "0.11", default-features = false, features = ["json"] }
rusqlite = { version = "0.28", features = ["bundled"] }
serde = { version = "1", features = ["derive"] }
serde_json = "1"
solana-program = "=1.14.29"
solana-sdk = "=1.14.29"
tokio = { version = "1", features = ["macros", "rt-multi-thread"] }
