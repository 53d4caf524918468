[package]
name = "kure"
version = "0.1.0"
edition = "2021"
publish = false

[dependencies]
chrono = "*"
glob = "*"
log = "*"
env_logger = "*"

[dev-dependencies]
serde_json = "*"
