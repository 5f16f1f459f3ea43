[package]
name = "notification_hubs"
version = "0.1.0"
edition = "2021"
publish = false

[dependencies]
base64 = "0.13"
chrono = "0.4"
hmac = "0.12"
hyper = { version = "0.14", features = ["client", "http1", "http2", "tcp"] }
hyper-tls = "0.5"
serde = { version = "1", features = ["derive"] }
serde_json = "1"
sha2 = "0.10"
thiserror = "1"
urlencoding = "2"
