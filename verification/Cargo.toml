[package]
name = "iceberg"
version = "0.1.0"
edition = "2021"
publish = false

[dependencies]
arrow = "*"
arrow-json = "*"
async-trait = "*"
axum = "*"
parquet = { version = "*", features = ["arrow"] }
serde = { version = "*", features = ["derive"] }
serde_json = "=1.0.151"
sqlx = { version = "*", features = ["sqlite", "runtime-tokio"] }
thiserror = "*"
tokio = { version = "*", features = ["full"] }
