[package]
name = "cyberdeck"
version = "0.1.0"
edition = "2021"
publish = false

[dependencies]
anyhow = "1"
argon2 = "=0.5.3"
async-nats = "*"
async-session = "=3.0.0"
async-trait = "0.1"
axum = "=0.6.20"
axum-sessions = "=0.5.0"
futures = "0.3"
rand = "=0.8.8"
rmp-serde = "=1.3.1"
rusqlite = { version = "0.29", features = ["bundled"] }
rusqlite_migration = "1"
serde = { version = "1", features = ["derive"] }
serde_json = "=1.0.154"
tokio = { version = "1", features = ["full"] }
tokio-rusqlite = "0.4"
tower-http = { version = "0.4", features = ["fs", "trace"] }
tracing = "0.1"
tracing-subscriber = { version = "0.3", features = ["env-filter"] }
