[package]
name = "taskflow"
version = "0.1.0"
edition = "2021"
publish = false

[dependencies]
axum = "*"
dotenv = "*"
serde = { version = "*", features = ["derive"] }
serde_json = "*"
sqlx = { version = "*", features = ["runtime-tokio", "postgres"], default-features = false }
tokio = { version = "*", features = ["full"] }
tracing = "*"
tracing-subscriber = "*"
