[package]
name = "assist"
version = "0.1.0"
edition = "2021"
publish = false

[dependencies]
agent-client-protocol = "1"
anyhow = "1"
tokio = { version = "1", features = ["macros", "rt", "sync"] }
