[package]
name = "sarcent"
version = "0.1.0"
edition = "2021"
publish = false

[dependencies]
murmur3 = "0.5"
clap = { version = "4", features = ["derive"] }
tokio = { version = "1", features = ["full"] }
tokio-rusqlite = { version = "*", features = ["bundled"] }
tonic = "0.12"
prost = "0.13"
tracing = "0.1"
tracing-subscriber = "0.3"
uuid = { version = "1", features = ["v4"] }
walkdir = "2"
sysinfo = "*"
dirs = "*"
daemonize = "0.5"
tabled = "*"
async-stream = "0.3"
