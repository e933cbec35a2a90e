[package]
name = "justrun"
version = "0.1.0"
edition = "2021"
publish = false

[dependencies]
yaml-rust2 = "*"
anyhow = "*"
log = "*"
env_logger = "*"
clap = { version = "4", features = ["derive"] }
tokio = { version = "1", features = ["rt", "rt-multi-thread", "net", "io-util", "signal", "macros", "time"] }
