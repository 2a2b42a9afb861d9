[package]
name = "oplire"
version = "3.0.0"
edition = "2021"
publish = false

[dependencies]
axum = "0.7"
bytes = "1"
futures = "0.3"
reqwest = { version = "0.12", default-features = false, features = ["charset", "http2", "json", "stream"] }
serde = { version = "1", features = ["derive"] }
serde_json = "1"
tokio = { version = "1", features = ["sync"] }
tracing = "0.1"
