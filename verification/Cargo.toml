[package]
name = "transaction_executor"
version = "0.1.0"
edition = "2021"
publish = false

[dependencies]
anyhow = "1"
async-trait = "0.1"
base64 = "0.21"
bincode = "1"
futures-core = "0.3"
futures-util = "0.3"
log = "0.4"
reqwest = { version = "0.11", default-features = false, features = ["json"] }
serde_json = "1"
solana-sdk = "1.18"
solana-transaction-status = "1.18"
tokio = { version = "1", features = ["macros", "rt", "sync", "time"] }
