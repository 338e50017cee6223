[package]
name = "control_channel"
version = "0.1.0"
edition = "2021"
publish = false

[dependencies]
futures-util = "0.3"
local-ip-address = "*"
serde_json = "1"
tokio = { version = "1", features = ["sync", "net", "rt", "rt-multi-thread"] }
tokio-tungstenite = "*"
