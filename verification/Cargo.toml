[package]
name = "battleship"
version = "0.1.0"
edition = "2021"
publish = false

[dependencies]
base64 = "0.13"
futures = "0.3"
log = "0.4"
rand = "0.8"
regex = "1"
rumqttc = { version = "0.11", default-features = false }
serde = { version = "1", features = ["derive"] }
serde_json = "1"
simple-log = "*"
simplecrypt = "1.0.2"
tokio = { version = "1", features = ["full"] }
