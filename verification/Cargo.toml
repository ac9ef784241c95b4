[package]
name = "video_transcriber_mcp"
version = "0.4.0"
edition = "2021"
publish = false

[dependencies]
anyhow = "1"
async-process = "2"
axum = "0.8"
chrono = "0.4"
clap = { version = "4", features = ["derive"] }
regex = "1"
reqwest = { version = "0.12", default-features = false, features = ["rustls-tls"] }
rmcp = { version = "0.12", features = ["server", "transport-io", "transport-streamable-http-server"] }
serde = { version = "1", features = ["derive"] }
serde_json = "1"
tempfile = "3"
tokio = { version = "1", features = ["full"] }
tracing = "0.1"
tracing-subscriber = "0.3"
whisper-rs = "0.15"
