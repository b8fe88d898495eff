[package]
name = "transcoder"
version = "0.1.0"
edition = "2021"
publish = false

[dependencies]
tokio = { version = "1", features = ["rt-multi-thread", "macros", "fs", "process", "sync", "io-util", "time"] }
tokio-stream = "0.1"
log = "0.4"
env_logger = "0.11"
dotenv = "0.15"
