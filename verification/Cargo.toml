[package]
name = "quicrtc"
version = "0.1.0"
edition = "2021"
publish = false

[dependencies]
openh264 = "*"
audiopus = "*"
cpal = "*"
tokio = { version = "1", features = ["full"] }
serde = { version = "1", features = ["derive"] }
serde_json = "1"
tokio-tungstenite = "*"
futures = "0.3"
dashmap = "*"
uuid = { version = "1", features = ["v4", "serde"] }
chrono = { version = "0.4", features = ["serde"] }
tracing = "0.1"
tracing-subscriber = { version = "0.3", features = ["env-filter"] }
rand = "*"
thiserror = "*"
parking_lot = "*"
