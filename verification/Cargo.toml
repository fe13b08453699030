[package]
name = "hearth_web"
version = "0.1.0"
edition = "2021"
publish = false

[dependencies]
axum = "0.8"
base64 = "0.22"
form_urlencoded = "1"
qrcode = "0.14"
serde = { version = "1", features = ["derive"] }
serde_json = "1"
serde_yaml = "0.9"
tokio = { version = "1", features = ["rt", "sync"] }
tracing = "0.1"
uuid = { version = "1", features = ["v4"] }
