[package]
name = "acterminal"
version = "0.1.0"
edition = "2021"
publish = false

[dependencies]
serde = { version = "1", features = ["derive"] }
serde_json = "1"
tokio = { version = "1", features = ["rt-multi-thread", "sync", "macros", "time"] }
rand = "0.9"
chrono = "0.4"
log = "0.4"
sysinfo = "0.37"
smol = "2"
