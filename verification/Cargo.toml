[package]
name = "nicacher"
version = "0.1.0"
edition = "2021"
publish = false

[dependencies]
anyhow = "=1.0.104"
apalis = { version = "=0.3.6", features = ["sqlite", "extensions"] }
apalis-core = "=0.3.6"
async-recursion = "=1.2.0"
axum = "=0.6.20"
backtrace = "=0.3.76"
chrono = "=0.4.45"
futures = "=0.3.34"
reqwest = { version = "=0.11.27", default-features = false, features = ["rustls-tls"] }
serde = { version = "=1.0.229", features = ["derive"] }
sqlx = { version = "=0.6.3", features = ["sqlite", "runtime-tokio-rustls", "chrono"] }
thiserror = "=1.0.69"
tokio = { version = "=1.54.1", features = ["full"] }
toml = "=0.7.8"
tower = "=0.4.13"
tower-http = { version = "=0.4.4", features = ["fs", "trace"] }
tracing = "=0.1.44"
tracing-log = "=0.1.4"
tracing-subscriber = { version = "=0.3.23", features = ["env-filter"] }
url = "=2.5.8"
xz2 = "=0.1.7"
