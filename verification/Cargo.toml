[package]
name = "rocket_websocket"
version = "0.1.0"
edition = "2021"
publish = false

[dependencies]
sha1 = "0.6"
base64 = "0.13"
tokio = { version = "1", features = ["rt"] }
tokio-tungstenite = "0.20"
futures = "0.3"
hyper = { version = "0.14", features = ["http1", "server"] }
