[package]
name = "flashcron"
version = "0.1.0"
edition = "2021"
publish = false

[dependencies]
chrono = "0.4"
chrono-tz = "0.10"
cron = "*"
uuid = { version = "1", features = ["v4", "serde"] }
toml = "0.8"
serde = { version = "1", features = ["derive"] }
serde_json = "1"
tokio = { version = "1", features = ["full"] }
clap = { version = "4", features = ["derive", "env"] }
log = { version = "0.4", features = ["kv"] }
fern = "0.7"
iana-time-zone = "0.1"
notify = "6"
reqwest = { version = "0.12", default-features = false, features = ["json"] }
rusqlite = { version = "0.32", features = ["bundled"] }
tokio-rusqlite = "0.6"
axum = "0.8"
anyhow = "1"
thiserror = "1"
tracing = "0.1"
