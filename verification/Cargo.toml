[package]
name = "kv_store"
version = "0.1.0"
edition = "2021"
publish = false

[dependencies]
axum = "*"
axum-server = { version = "*", features = ["tls-rustls"] }
clap = { version = "*", features = ["derive"] }
env_logger = "*"
log = "*"
serde = { version = "*", features = ["derive"] }
tokio = { version = "*", features = ["full"] }
tonic = "*"
