[package]
name = "nostrdm"
version = "0.1.0"
edition = "2021"
publish = false

[dependencies]
anyhow = "=1.0.104"
chrono = "=0.4.45"
clap = { version = "=4.6.7", features = ["derive"] }
colored = "=3.1.1"
futures = "=0.3.34"
nostr = { version = "=0.45.5", features = ["nip59"] }
nostr-sdk = "=0.45.4"
thiserror = "=2.0.21"
tokio = { version = "=1.53.2", features = ["full"] }
