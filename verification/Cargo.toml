[package]
name = "terminalg"
version = "0.1.0"
edition = "2021"
publish = false

[dependencies]
anyhow = "1"
dirs = "5"
open = "5"
serde = { version = "1", features = ["derive"] }
serde_json = "1"
smol = "2"
tracing = "0.1"
tracing-subscriber = { version = "0.3", features = ["env-filter"] }
