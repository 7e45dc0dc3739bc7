[package]
name = "logdash"
version = "0.1.0"
edition = "2021"
publish = false

[dependencies]
anyhow = "*"
chrono = "*"
crossterm = "*"
local-ip-address = "*"
ratatui = "*"
sysinfo = "*"
