[package]
name = "agent_insights"
version = "0.1.0"
edition = "2021"
publish = false

[dependencies]
serde_json = "*"
serde = { version = "*", features = ["derive"] }
rusqlite = { version = "*", features = ["bundled"] }
chrono = "*"
walkdir = "*"
notify = "*"
anyhow = "*"
axum = { version = "*", features = ["ws"] }
tokio = { version = "*", features = ["full"] }
tower-http = { version = "*", features = ["fs", "cors"] }
futures = "*"
tracing = "*"
tracing-subscriber = "*"
