[package]
name = "ragkit"
version = "0.1.0"
edition = "2021"
publish = false

[dependencies]
anyhow = "=1.0.104"
axum = "=0.8.9"
axum-streams = { version = "=0.30.0", features = ["text"] }
futures = "=0.3.34"
openai = "=1.1.1"
qdrant-client = "=1.19.0"
serde = { version = "=1.0.229", features = ["derive"] }
serde_json = "=1.0.151"
tokio = { version = "=1.53.2", features = ["rt-multi-thread", "macros", "sync", "net"] }
tokio-stream = "=0.1.19"
tower-http = { version = "=0.7.1", features = ["fs"] }
