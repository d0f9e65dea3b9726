[package]
name = "tickoattwo"
version = "0.1.0"
edition = "2021"
publish = false

[dependencies]
base64 = "0.13"
tungstenite = "0.20"
uuid = { version = "1", features = ["v4"] }
hyper = { version = "0.14", features = ["server", "http1", "tcp", "runtime"] }
tokio = { version = "1", features = ["full"] }
tokio-tungstenite = "0.20"
futures = "0.3"
futures-util = "0.3"
log = "0.4"
simple_logger = "4"
