[package]
name = "fry_tftp_server"
version = "0.1.0"
edition = "2021"
publish = false

[dependencies]
bytes = "1"
ipnet = "2"
serde = { version = "1", features = ["derive"] }
serde_json = "1"
toml = "0.8"
tokio = { version = "1", features = ["rt-multi-thread", "macros", "net", "time", "sync", "io-util", "signal"] }
tokio-util = "0.7"
socket2 = "0.5"
anyhow = "1"
thiserror = "1"
tracing = "0.1"
tracing-subscriber = "0.3"
uuid = { version = "1", features = ["v4"] }
memmap2 = "0.9"
dirs = "5"
clap = { version = "4", features = ["derive"] }
