[package]
name = "media_pipeline"
version = "0.1.0"
edition = "2021"
publish = false

[dependencies]
http = "*"
serde_json = "*"
percent-encoding = "*"
serde = { version = "*", features = ["derive"] }
tokio = { version = "*", features = ["full"] }
axum = "*"
reqwest = { version = "*", default-features = false, features = ["json", "multipart", "stream"] }
futures = "*"
tokio-util = { version = "*", features = ["io"] }
log = "*"
