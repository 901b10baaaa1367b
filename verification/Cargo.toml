[package]
name = "cluster_endpoints"
version = "0.1.0"
edition = "2021"
publish = false

[dependencies]
anyhow = "=1.0.104"
base64 = "=0.23.1"
bincode = "=1.3.3"
solana-sdk = "=2.3.1"
tokio = { version = "=1.53.2", features = ["sync", "rt"] }
