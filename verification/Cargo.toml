[package]
name = "diskord"
version = "0.1.0"
edition = "2021"
publish = false

[dependencies]
chrono = "*"
crossterm = "*"
dirs = "*"
jwalk = "*"
ratatui = "*"
serde = "*"
serde_derive = "*"
sysinfo = "*"
toml = "*"
