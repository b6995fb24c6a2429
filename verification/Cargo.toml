[package]
name = "glittr_core"
version = "0.1.0"
edition = "2021"
publish = false

[dependencies]
bitcoin = { version = "0.32", features = ["serde"] }
bitcoincore-rpc = "0.19"
serde = { version = "1", features = ["derive"] }
serde_json = "1"
serde_with = "3"
hex = "0.4"
log = "0.4"
rocksdb = "0.22"
axum = "0.7"
tokio = { version = "1", features = ["full"] }
tower-http = { version = "0.6", features = ["cors"] }
