[package]
name = "exopteron"
version = "0.1.0"
edition = "2021"
publish = false

[dependencies]
ahash = { version = "=0.8.12", features = ["serde"] }
anyhow = "=1.0.104"
bytes = "=1.12.1"
chrono = "=0.4.45"
env_logger = "*"
flate2 = "=1.1.10"
libloading = "*"
log = "=0.4.35"
rand = "=0.8.8"
serde_json = "=1.0.154"
termion = "*"
thiserror = "=1.0.69"
