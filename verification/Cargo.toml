[package]
name = "email_service"
version = "0.1.0"
edition = "2021"
publish = false

[dependencies]
validator = "=0.16.1"
axum = "=0.8.9"
tokio = { version = "1", features = ["full"] }
sqlx = { version = "=0.8.6", default-features = false, features = ["derive", "postgres", "runtime-tokio", "uuid"] }
serde = { version = "1", features = ["derive"] }
uuid = { version = "1", features = ["v4"] }
anyhow = "1"
