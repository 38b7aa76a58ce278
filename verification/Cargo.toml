[package]
name = "zero_lock"
version = "0.1.0"
edition = "2021"
publish = false

[dependencies]
chrono = "0.4"
env_logger = "0.10"
log = "0.4"
pwd = "1"
tokio = { version = "1", features = ["time"] }
wayland-client = "0.31"
