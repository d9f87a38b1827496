[package]
name = "mcp"
version = "0.1.0"
edition = "2021"
publish = false

[dependencies]
serde_json = { version = "=1.0.151", features = ["preserve_order"] }
tokio = { version = "=1.53.2", features = ["rt-multi-thread", "macros", "process", "io-util", "sync", "signal", "time"] }
