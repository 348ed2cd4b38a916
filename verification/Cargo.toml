[package]
name = "bpp_onest_lite"
version = "0.1.0"
edition = "2021"
publish = false

[dependencies]
serde = { version = "*", features = ["derive"] }
serde_json = "*"
sha2 = "*"
uuid = { version = "*", features = ["v4"] }
chrono = "*"
reqwest = { version = "*", default-features = false, features = ["json"] }
axum = "*"
tokio = { version = "*", features = ["full"] }
deadpool-redis = "*"
sqlx = { version = "*", default-features = false, features = ["runtime-tokio", "postgres", "json", "chrono"] }
tokio-cron-scheduler = "*"
tower-http = { version = "*", features = ["cors"] }
anyhow = "*"
tracing = "*"
tracing-appender = "*"
tracing-subscriber = { version = "*", features = ["env-filter", "fmt", "json"] }
