[package]
name = "rumqttc"
version = "0.1.0"
edition = "2021"
publish = false

[dependencies]
bytes = "1"
flume = "0.11"
tokio = { version = "1", features = ["rt"] }
pollster = "0.3"
thiserror = "1"
serde = { version = "1", features = ["derive"] }
serde_json = "1"
pretty_env_logger = "0.5"
