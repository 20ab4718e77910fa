[package]
name = "cmdex"
version = "0.1.0"
edition = "2021"
publish = false

[dependencies]
anyhow = "=1.0.104"
serde = { version = "=1.0.229", features = ["derive"] }
serde_json = "=1.0.154"
url = "=2.5.8"
pulldown-cmark = "=0.13.6"
ratatui = { version = "=0.29.0", features = ["unstable-rendered-line-info"] }
