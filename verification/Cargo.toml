[package]
name = "noddo"
version = "0.1.0"
edition = "2021"
publish = false

[dependencies]
tokio = { version = "1", features = ["sync", "net", "rt", "macros"] }
serde = { version = "1", features = ["derive"] }
serde_json = "1"
uuid = { version = "1", features = ["v4"] }
chrono = "0.4"
axum = { version = "0.8", default-features = false, features = ["tokio", "http1", "json"] }
tracing = "0.1"
tauri = { version = "2", default-features = false }
