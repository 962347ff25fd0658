[package]
name = "queue_rs"
version = "0.1.0"
edition = "2021"
publish = false

[dependencies]
redis = { version = "*", default-features = false }
serde = { version = "1", features = ["derive"] }
serde_json = "1"
tracing = "0.1"
typetag = "*"
