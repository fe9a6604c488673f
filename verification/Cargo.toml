[package]
name = "mdk_cli"
version = "0.1.0"
edition = "2021"
publish = false

[dependencies]
anyhow = "=1.0.104"
clap = { version = "=4.6.7", features = ["derive", "env"] }
dirs = "=7.0.0"
hex = "=0.4.3"
mdk-core = "=0.7.1"
mdk-sqlite-storage = "=0.7.1"
nostr = { version = "0.44", features = ["std", "nip59"] }
nostr-sdk = "=0.44.1"
serde = { version = "=1.0.229", features = ["derive"] }
serde_json = "=1.0.154"
tokio = { version = "=1.54.1", features = ["full"] }
toml = "=1.1.8"
tracing = "=0.1.44"
tracing-subscriber = { version = "=0.3.23", features = ["env-filter"] }
