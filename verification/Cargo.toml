[package]
name = "dota"
version = "0.1.0"
edition = "2021"
publish = false

[dependencies]
serde = { version = "=1.0.229", features = ["derive"] }
serde_json = "=1.0.151"
tokio = { version = "=1.53.2", features = ["rt-multi-thread", "net", "io-util", "sync", "macros", "time", "signal"] }
log = "=0.4.34"
env_logger = "=0.11.11"
