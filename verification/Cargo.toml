[package]
name = "tetris_core"
version = "0.1.0"
edition = "2021"
publish = false

[dependencies]
crc = "=3.4.0"
instant = "=0.1.13"
serde = { version = "=1.0.229", features = ["derive"] }
toml = "=0.8.23"
dirs = "=5.0.1"
thiserror = "=1.0.69"
ratatui = "0.29"
crossterm = "0.28"
