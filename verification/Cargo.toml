[package]
name = "shopware_redis_cli_helper"
version = "0.1.0"
edition = "2021"
publish = false

[dependencies]
anyhow = "1"
chrono = "0.4"
clap = { version = "4", features = ["derive", "env"] }
comfy-table = "7"
crossterm = "0.28"
flate2 = "1"
humansize = "2"
indicatif = "0.17"
ratatui = "0.29"
redis = { version = "0.27", features = ["tokio-comp", "connection-manager"] }
serde = { version = "1", features = ["derive"] }
serde_json = "1"
tokio = { version = "1", features = ["rt-multi-thread", "macros", "sync", "time"] }
zstd = "0.13"
