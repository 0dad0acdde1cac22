[package]
name = "snap_coin_node"
version = "0.1.0"
edition = "2021"
publish = false

[dependencies]
anyhow = "=1.0.104"
console-subscriber = "=0.5.0"
crossterm = "=0.29.0"
log = "=0.4.34"
ratatui = "=0.30.2"
snap-coin = { version = "=16.1.0", features = ["light", "full-node"] }
tokio = { version = "=1.54.1", features = ["full"] }
tracing-subscriber = "=0.3.23"
