[package]
name = "xiangqi_assistant"
version = "0.1.0"
edition = "2021"
publish = false

[dependencies]
anyhow = "1"
thiserror = "1"
serde = { version = "1", features = ["derive"] }
tracing = "0.1"
tracing-subscriber = { version = "0.3", features = ["env-filter"] }
enigo = "0.1"
xcap = "*"
ndarray = "0.16"
ort = "2.0.0-rc.9"
