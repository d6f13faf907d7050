[package]
name = "anipler"
version = "0.1.0"
edition = "2021"
publish = false

[dependencies]
anyhow = "=1.0.104"
axum = "=0.8.9"
chrono = "=0.4.45"
clap = { version = "=4.6.7", features = ["derive"] }
dirs = "=7.0.0"
frankenstein = { version = "=0.52.1", features = ["client-reqwest"] }
log = "=0.4.34"
qbit-rs = "=0.6.0"
reqwest = { version = "=0.12.28", features = ["json"] }
serde = { version = "=1.0.229", features = ["derive"] }
shell-words = "=1.1.1"
shellexpand = "=3.1.2"
sqlx = { version = "=0.8.6", default-features = false, features = ["sqlite", "runtime-tokio"] }
tap = "=1.0.1"
thiserror = "=2.0.21"
tokio = { version = "=1.54.1", features = ["full"] }
tokio-cron-scheduler = { version = "=0.15.1", features = ["signal"] }
tokio-util = "=0.7.20"
toml = "=1.1.8"
tower-http = { version = "=0.6.11", features = ["trace"] }
tracing = "=0.1.44"
tracing-subscriber = { version = "=0.3.23", features = ["env-filter"] }
url = { version = "=2.5.8", features = ["serde"] }
