[package]
name = "typing_test_tui"
version = "0.1.0"
edition = "2021"
publish = false

[dependencies]
rand = "*"
clap = { version = "*", features = ["derive"] }
color-eyre = "*"
crossterm = { version = "*", features = ["event-stream"] }
dirs = "*"
futures = "*"
itertools = "*"
ratatui = "*"
serde = { version = "*", features = ["derive"] }
serde_json = "*"
tokio = { version = "*", features = ["full"] }
tokio-tungstenite = "*"
tokio-util = "*"
toml = "*"
