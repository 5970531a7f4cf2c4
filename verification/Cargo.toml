[package]
name = "squid"
version = "0.3.0"
edition = "2021"
publish = false

[dependencies]
regex = "=1.13.1"
sha2 = "=0.10.9"
tiktoken-rs = "=0.12.1"
tokio-cron-scheduler = "=0.15.1"
tokio = { version = "=1.54.1", features = ["full"] }
serde = { version = "=1.0.229", features = ["derive"] }
serde_json = "=1.0.154"
serde_yaml = "=0.9.34"
log = "=0.4.35"
env_logger = "=0.11.11"
chrono = "=0.4.45"
sysinfo = "=0.40.1"
dirs = "=7.0.0"
clap = { version = "=4.6.7", features = ["derive"] }
dotenvy = "=0.15.7"
base64 = "0.22"
jsonschema = { version = "*", default-features = false }
