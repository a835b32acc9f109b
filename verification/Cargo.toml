[package]
name = "mixhub"
version = "0.1.0"
edition = "2021"
publish = false

[dependencies]
futures-channel = "*"
futures-util = "*"
id3 = "*"
infer = "*"
lazy_static = "*"
log = "*"
metaflac = "*"
rouille = "*"
serde = "*"
serde_derive = "*"
serde_json = "*"
simple_logger = "*"
tokio = { version = "*", features = ["full"] }
tokio-tungstenite = "*"
