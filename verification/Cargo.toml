[package]
name = "contextvm_sdk"
version = "0.1.0"
edition = "2021"
publish = false

[dependencies]
futures = "=0.3.34"
lru = "=0.19.0"
nostr-sdk = { version = "=0.44.1", features = ["nip44", "nip59"] }
rmcp = "=3.8.0"
serde = { version = "=1.0.229", features = ["derive"] }
serde_json = "=1.0.154"
tokio = { version = "=1.54.1", features = ["full"] }
tokio-util = "=0.7.20"
tracing = "=0.1.44"
