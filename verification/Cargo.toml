[package]
name = "c-lightning-http-plugin"
version = "0.1.0"
edition = "2021"
publish = false

[dependencies]
base64 = "0.13"
crossbeam-channel = "0.5"
failure = "0.1"
futures = "0.3"
hyper = "0.13"
lazy_async_pool = "*"
serde = { version = "1", features = ["derive"] }
serde_json = "1"
tokio = { version = "0.2", features = ["full"] }
