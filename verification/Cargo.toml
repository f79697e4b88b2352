[package]
name = "pumper_routes"
version = "0.1.0"
edition = "2021"
publish = false

[dependencies]
async-stream = "=0.3.6"
axum = "=0.8.9"
chrono = { version = "=0.4.45", features = ["serde"] }
chrono-tz = "=0.10.4"
cron = "=0.17.0"
futures = "=0.3.34"
serde = { version = "=1.0.229", features = ["derive"] }
serde_json = "=1.0.154"
sha2 = "=0.10.9"
tokio = { version = "=1.54.1", features = ["fs", "io-util", "macros", "net", "rt-multi-thread", "sync", "time"] }
tokio-util = { version = "=0.7.20", features = ["io"] }
tower-http = { version = "=0.6.11", features = ["catch-panic", "compression-br", "compression-gzip", "cors", "trace"] }
tracing = "=0.1.44"
utoipa = { version = "=5.5.0", features = ["axum_extras", "uuid"] }
utoipa-axum = "=0.2.0"
uuid = { version = "=1.29.0", features = ["serde", "v4"] }
