[package]
name = "rainrun"
version = "0.1.0"
edition = "2021"
publish = false

[dependencies]
rand = "0.8"
rand_chacha = "0.3"
zebedee-rust = "*"
tokio = { version = "1", features = ["full"] }
warp = "0.3"
speedy = "0.8"
uuid = { version = "1", features = ["v4"] }
futures-util = "0.3"
tokio-stream = "0.1"
log = "0.4"
pretty_env_logger = "0.5"
serde_json = "1"
