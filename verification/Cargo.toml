[package]
name = "delivery_boy"
version = "0.1.0"
edition = "2021"
publish = false

[dependencies]
url = "*"
chrono = "*"
chrono-tz = "*"
serde = { version = "*", features = ["derive"] }
serde_json = "*"
tokio = { version = "*", features = ["macros", "rt-multi-thread", "time", "net"] }
axum = "*"
sqlx = { version = "*", features = ["sqlite", "runtime-tokio"] }
reqwest = { version = "*", features = ["json"] }
clokwerk = "*"
