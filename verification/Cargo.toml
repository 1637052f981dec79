[package]
name = "triangle_arbitrage"
version = "0.1.0"
edition = "2021"
publish = false

[dependencies]
anyhow = "1"
env_logger = "*"
log = "0.4"
tokio = { version = "1", features = ["full"] }
