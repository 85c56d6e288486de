[package]
name = "rapina"
version = "0.1.0"
edition = "2021"
publish = false

[dependencies]
heck = "*"
tokio = { version = "*", features = ["full"] }
hyper = { version = "*", features = ["full"] }
hyper-util = { version = "*", features = ["full"] }
http = "*"
http-body-util = "*"
serde = { version = "*", features = ["derive"] }
serde_json = "*"
chrono = "*"
