[package]
name = "rate_tracker"
version = "0.1.0"
edition = "2021"
publish = false

[dependencies]
uuid = { version = "1", features = ["v4"] }
reqwest = { version = "0.12", default-features = false }
tokio = { version = "1", features = ["rt-multi-thread", "macros", "time"] }
log = "0.4"
env_logger = "0.11"
dotenv = "0.15"
