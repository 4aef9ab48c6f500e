[package]
name = "cloudwatch_logger"
version = "0.1.0"
edition = "2021"
publish = false

[dependencies]
aws-config = { version = "=1.13.0", default-features = false, features = ["behavior-version-latest", "rt-tokio"] }
aws-sdk-cloudwatchlogs = { version = "=1.162.0", features = ["behavior-version-latest"] }
chrono = { version = "=0.4.45", default-features = false, features = ["now"] }
env_logger = "=0.11.11"
log = "=0.4.35"
once_cell = "=1.21.4"
tokio = { version = "=1.54.1", features = ["rt", "sync"] }
