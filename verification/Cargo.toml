[package]
name = "mindchat_core"
version = "0.1.8"
edition = "2021"
publish = false

[dependencies]
base64 = "0.22"
ring = "0.17"
serde = { version = "1", features = ["derive"] }
serde_json = "1"
xmpp-parsers = "*"
tokio = { version = "1", features = ["rt", "net", "time", "io-util"] }
hickory-resolver = "*"
