[package]
name = "coop_gateway"
version = "0.1.0"
edition = "2021"
publish = false

[dependencies]
anyhow = "1"
arc-swap = "1"
async-trait = "0.1"
chrono = "0.4"
chrono-tz = "*"
clap = { version = "4", features = ["derive"] }
cron = "*"
futures = "0.3"
iana-time-zone = "0.1"
regex = "1"
serde = { version = "1", features = ["derive"] }
serde_json = "1"
tokio = { version = "1", features = ["rt", "rt-multi-thread", "macros", "sync", "time", "fs"] }
tokio-util = "0.7"
toml = "*"
tracing = "0.1"
uuid = { version = "1", features = ["v4", "serde"] }
