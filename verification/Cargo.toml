[package]
name = "vibes"
version = "0.1.0"
edition = "2021"
publish = false

[dependencies]
uuid = { version = "=1.29.1", features = ["v4", "serde"] }
serde = { version = "=1.0.229", features = ["derive"] }
serde_json = "=1.0.154"
serde_yaml = "=0.9.34"
chrono = { version = "=0.4.45", features = ["serde"] }
thiserror = "=2.0.21"
anyhow = "=1.0.104"
tokio = { version = "=1.54.1", features = ["macros", "rt-multi-thread", "sync", "time"] }
axum = "=0.8.9"
async-trait = "=0.1.92"
futures-util = "=0.3.34"
futures-core = "=0.3.34"
tokio-stream = "=0.1.19"
bollard = "=0.21.1"
ratatui = "=0.30.2"
crossterm = "=0.29.0"
sqlx = { version = "0.8", default-features = false, features = ["postgres", "runtime-tokio", "uuid", "chrono", "json"] }
reqwest = { version = "0.12", default-features = false, features = ["json"] }
tower-http = { version = "0.6", features = ["cors", "trace"] }
tracing = "0.1"
tracing-subscriber = { version = "0.3", features = ["env-filter"] }
dotenvy = "0.15"
