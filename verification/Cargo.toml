[package]
name = "custom_tools"
version = "0.1.0"
edition = "2021"
publish = false

[dependencies]
anyhow = "1"
clap = { version = "4", features = ["derive"] }
crossterm = "0.28"
portable-pty = "*"
ratatui = "0.29"
which = "*"
