[package]
name = "flowlog"
version = "0.1.0"
edition = "2021"
publish = false

[dependencies]
chrono = { version = "0.4", features = ["serde"] }
serde = { version = "1", features = ["derive"] }
serde_json = "1"
config = { version = "*", default-features = false, features = ["toml"] }
notify = "*"
aws-config = "1"
aws-sdk-s3 = "1"
tokio = { version = "1", features = ["rt"] }
bytes = "1"
