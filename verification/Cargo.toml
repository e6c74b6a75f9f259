[package]
name = "eth_logs"
version = "0.1.0"
edition = "2021"
publish = false

[dependencies]
bytes = "1"
clap = { version = "4", features = ["derive"] }
config = "*"
env_logger = "*"
eyre = "0.6"
log = "0.4"
postgres-types = "0.2"
serde = { version = "1", features = ["derive"] }
tokio = { version = "1", features = ["full"] }
tokio-postgres = "0.7"
