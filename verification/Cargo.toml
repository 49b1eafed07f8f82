[package]
name = "perptrix"
version = "0.1.0"
edition = "2021"
publish = false

[dependencies]
apalis = "*"
apalis-redis = "*"
async-trait = "0.1"
axum = "0.8"
chrono = { version = "0.4", features = ["serde"] }
cron = "*"
dotenvy = "0.15"
serde = { version = "1", features = ["derive"] }
serde_json = "1"
tokio = { version = "1", features = ["full"] }
tokio-postgres = { version = "0.7", features = ["with-chrono-0_4"] }
tower = "0.5"
tower-http = { version = "0.6", features = ["cors", "trace"] }
tracing = "0.1"
tracing-subscriber = { version = "0.3", features = ["env-filter", "json"] }
