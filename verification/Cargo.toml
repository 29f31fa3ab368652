[package]
name = "videostream"
version = "2.0.0"
edition = "2021"
publish = false

[dependencies]
clap = { version = "4", features = ["derive"] }
env_logger = "0.11"
log = "0.4"
mp4 = "0.14"
serde = { version = "1", features = ["derive"] }
serde_json = "1"
signal-hook = "0.3"
