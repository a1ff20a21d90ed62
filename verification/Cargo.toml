[package]
name = "strip_engine"
version = "0.1.0"
edition = "2021"
publish = false

[dependencies]
clap = { version = "3", features = ["derive"] }
env_logger = "0.9"
error-stack = "0.2"
log = "0.4"
rs_ws281x = "0.4"
signal-hook = "0.3"
tokio = { version = "1", features = ["rt-multi-thread", "sync"] }
warp = "0.3"
