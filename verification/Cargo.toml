[package]
name = "event_relay"
version = "0.1.0"
edition = "2021"
publish = false

[dependencies]
chrono = "=0.4.45"
rand = "=0.10.3"
tokio = { version = "*", features = ["full"] }
tokio-util = "*"
futures = "*"
google-cloud-pubsub = "=0.30.0"
google-cloud-googleapis = "*"

[dev-dependencies]
serde_json = "*"
