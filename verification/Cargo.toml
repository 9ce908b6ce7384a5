[package]
name = "bacnet_mqtt_gateway"
version = "0.1.0"
edition = "2021"
publish = false

[dependencies]
bacnet-rs = "*"
tokio = { version = "*", features = ["rt-multi-thread", "macros", "time", "sync", "net"] }
rumqttc = "*"
serde = { version = "*", features = ["derive"] }
serde_json = "*"
serde_yaml = "*"
