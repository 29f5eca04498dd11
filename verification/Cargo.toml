[package]
name = "investengine_csv_server_rs"
version = "0.1.0"
edition = "2021"
publish = false

[dependencies]
anyhow = "*"
askama = "*"
axum = { version = "*", features = ["multipart"] }
chrono = { version = "*", features = ["serde"] }
csv = "*"
dotenvy = "*"
futures = "*"
mongodb = "*"
once_cell = "*"
regex = "*"
rust_decimal = "*"
serde = { version = "*", features = ["derive"] }
serde_json = "*"
tokio = { version = "*", features = ["full"] }
tower-http = { version = "*", features = ["trace"] }
tracing = "*"
tracing-subscriber = "*"
yfinance-rs = "*"
