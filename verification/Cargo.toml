[package]
name = "datadog_archives"
version = "0.1.0"
edition = "2021"
publish = false

[dependencies]
chrono = "0.4"
base64 = "*"
uuid = { version = "*", features = ["v4"] }
rand = "*"

[dev-dependencies]
serde_json = "1"
