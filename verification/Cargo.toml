[package]
name = "mitigation_core"
version = "0.1.0"
edition = "2021"
publish = false

[dependencies]
async-trait = "*"
axum = "*"
chrono = { version = "*", features = ["serde"] }
ipnet = "*"
serde = { version = "*", features = ["derive"] }
serde_json = "*"
sqlx = { version = "*", default-features = false, features = ["runtime-tokio", "sqlite", "postgres", "chrono", "uuid"] }
tracing = "*"
utoipa = { version = "*", features = ["chrono", "uuid"] }
uuid = { version = "*", features = ["v4", "serde"] }
