[package]
name = "sshkeeper"
version = "0.1.0"
edition = "2021"
publish = false

[dependencies]
anyhow = "1"
chrono = { version = "0.4", features = ["serde"] }
crossterm = "0.28"
dirs = "6"
ratatui = "0.29"
serde = { version = "1", features = ["derive"] }
ssh2-config = "*"
toml = "0.8"
tui-input = "0.11"
uuid = { version = "1", features = ["v4"] }
