[package]
name = "tx_orderer"
version = "0.1.0"
edition = "2021"
publish = false

[dependencies]
const-hex = "1"
ethers-core = "2.0.14"
sha3 = "0.10"
dashmap = "6"
serde = { version = "1", features = ["derive"] }
serde_json = "1"
tokio = { version = "1", features = ["full"] }
tracing = "0.1"
clap = { version = "4", features = ["derive"] }
futures = "0.3"
