[package]
name = "see"
version = "0.1.0"
edition = "2021"
publish = false

[dependencies]
chrono = "0.4"
regex = "1"
ratatui = "*"
crossterm = "*"
tokio = { version = "1", features = ["full"] }
futures = "*"
clap = { version = "4", features = ["derive"] }
serde = { version = "1", features = ["derive"] }
color-eyre = "*"
journald = "*"
systemd = "*"
arboard = { version = "*", default-features = false }
tui-slider = "*"
