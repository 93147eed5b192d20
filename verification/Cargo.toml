[package]
name = "chlorine"
version = "0.1.0"
edition = "2021"
publish = false

[dependencies]
anyhow = "1"
axum = "0.8"
deadpool-postgres = "*"
jiff = "*"
regex = "1"
serde = { version = "1", features = ["derive"] }
serde_json = "1"
slug = "*"
thiserror = "*"
tokio = { version = "1", features = ["full"] }
tracing = "*"
tracing-subscriber = "*"
