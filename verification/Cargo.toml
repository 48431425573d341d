[package]
name = "homelab_system_controller"
version = "0.1.0"
edition = "2021"
publish = false

[dependencies]
konst = "=0.3.17"
tokio = { version = "=1.54.1", features = ["full"] }
poise = "=0.6.2"
sqlx = { version = "=0.8.6", default-features = false, features = ["sqlite", "runtime-tokio", "migrate"] }
axum = { version = "=0.8.9", features = ["ws"] }
tower-http = { version = "=0.6.11", features = ["cors"] }
clokwerk = "=0.4.0"
futures = "=0.3.34"
reqwest = { version = "=0.12.28", default-features = false, features = ["rustls-tls"] }
serde = { version = "=1.0.229", features = ["derive"] }
serde_json = "=1.0.154"
serde_yaml = "=0.9.34"
systemstat = { version = "=0.2.7", features = ["serde"] }
config = { version = "=0.14.1", default-features = false }
bytes = "=1.12.1"
tokio-util = { version = "=0.7.20", features = ["io"] }
log = "=0.4.35"
