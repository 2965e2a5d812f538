[package]
name = "openai_proxy"
version = "0.1.0"
edition = "2021"
publish = false

[dependencies]
axum = "*"
serde = { version = "1", features = ["derive"] }
serde_json = "1"
tokio = { version = "1", features = ["macros", "rt-multi-thread", "net", "sync", "time"] }
tokio-stream = { version = "*", features = ["sync"] }
tower-http = { version = "*", features = ["cors"] }
uuid = { version = "1", features = ["v4"] }
