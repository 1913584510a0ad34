[package]
name = "twitchcat"
version = "0.1.0"
edition = "2021"
publish = false

[dependencies]
twitchchat = { version = "0.14", features = ["async", "smol", "async-tls"] }
rand = "0.8"
smol = "1"
anyhow = "1"
serde = { version = "1", features = ["derive"] }
serde_yaml = "0.8"
log = "0.4"
env_logger = "0.9"
