[package]
name = "default_mac"
version = "0.1.0"
edition = "2021"
publish = false

[dependencies]
anyhow = "1"
regex = "1"
winapi = { version = "0.3", features = ["inaddr", "iphlpapi", "iptypes", "ntdef", "winerror", "ws2def"] }
