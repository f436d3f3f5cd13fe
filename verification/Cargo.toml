[package]
name = "coding_tools"
version = "0.1.0"
edition = "2021"
publish = false

[dependencies]
uuid = { version = "=1.29.0", features = ["v4"] }
argon2 = { version = "=0.5.3", features = ["std"] }
reqwest = { version = "=0.12.28", default-features = false, features = ["json", "rustls-tls"] }
serde = { version = "=1.0.229", features = ["derive"] }
serde_json = "=1.0.154"
tokio = { version = "=1.54.1", features = ["full"] }
tokio-stream = { version = "=0.1.19", features = ["sync"] }
axum = "=0.8.9"
tower-http = { version = "=0.6.11", features = ["cors"] }
dirs = "=6.0.0"
walkdir = "=2.5.0"
sha2 = "=0.10.9"
