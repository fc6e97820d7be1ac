[package]
name = "s3_proxy"
version = "0.1.0"
edition = "2021"
publish = false

[dependencies]
anyhow = "=1.0.104"
axum = { version = "=0.5.17", features = ["headers"] }
dotenv = "=0.15.0"
rust-s3 = { version = "=0.32.3", default-features = false, features = ["tags", "fail-on-err", "tokio-rustls-tls"] }
serde = { version = "=1.0.229", features = ["derive"] }
serde_yaml = "=0.9.34"
thiserror = "=1.0.69"
tokio = { version = "=1.53.2", features = ["rt-multi-thread", "macros", "fs", "net"] }
tracing = "=0.1.44"
tracing-subscriber = "=0.3.23"
