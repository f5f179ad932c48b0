[package]
name = "fleet"
version = "0.1.0"
edition = "2021"
publish = false

[dependencies]
crossterm = "0.29"
dirs = "6"
ratatui = "0.30"
serde_json = "1"
tui-term = "0.3"
