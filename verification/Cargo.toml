[package]
name = "my_redis_server"
version = "0.1.0"
edition = "2021"
publish = false

[dependencies]
serde_json = "1"
tokio = { version = "1", features = ["rt-multi-thread", "macros", "time", "sync"] }
job_scheduler = "1"
signal-hook = "0.3"
