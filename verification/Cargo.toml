[package]
name = "ssh_gateway"
version = "0.1.0"
edition = "2021"
publish = false

[dependencies]
anyhow = "1"
futures = "0.3"
russh = "*"
russh-sftp = "*"
serde = { version = "1", features = ["derive"] }
serde_json = "1"
tokio = { version = "1", features = ["full"] }
tokio-tungstenite = "*"
tokio-util = "*"
tracing = "0.1"
tracing-subscriber = "0.3"
