[package]
name = "notify_api"
version = "0.1.0"
edition = "2021"
publish = false

[dependencies]
base64 = "=0.22.1"
chrono = "=0.4.45"
chrono-tz = "=0.10.4"
serde = { version = "=1.0.229", features = ["derive"] }
serde_json = "=1.0.154"
tokio = { version = "=1.54.1", features = ["full"] }
tokio-rustls = "=0.26.6"
rustls-pki-types = "=1.15.1"
webpki-roots = "=1.0.10"
sqlx = { version = "=0.8.6", default-features = false, features = ["runtime-tokio", "postgres", "chrono", "json"] }
axum = "=0.8.9"
reqwest = { version = "0.12", default-features = false, features = ["json", "rustls-tls"] }
