[package]
name = "model_relay"
version = "0.1.0"
edition = "2021"
publish = false

[dependencies]
axum = "0.7"
http-body-util = "0.1"
hyper = { version = "1", features = ["client", "http1"] }
hyper-util = { version = "0.1", features = ["tokio"] }
regex = "1"
serde = { version = "1", features = ["derive"] }
serde_json = "1"
tokio = { version = "1", features = ["full"] }
