[package]
name = "hop6"
version = "0.1.0"
edition = "2021"
publish = false

[dependencies]
anyhow = "1"
crossterm = { version = "0.28", features = ["event-stream"] }
futures = "0.3"
ratatui = "0.29"
serde = { version = "1", features = ["derive"] }
serde_json = "1"
tokio = { version = "1", features = ["full"] }
tokio-socks = "0.5"
tokio-util = { version = "0.7", features = ["codec"] }
torut = { version = "0.2", default-features = false, features = ["v3", "control"] }
