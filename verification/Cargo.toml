[package]
name = "frogolio"
version = "0.1.0"
edition = "2021"
publish = false

[dependencies]
askama = "0.12"
askama_axum = "0.4"
axum = { version = "0.7", features = ["multipart"] }
axum_typed_multipart = "0.11"
bcrypt = "0.15"
chrono = "0.4"
dotenvy = "0.15"
futures = "0.3"
infer = "0.15"
jsonwebtoken = "9"
serde = { version = "1", features = ["derive"] }
serde_json = "1"
sqlx = { version = "0.7", default-features = false, features = ["runtime-tokio", "sqlite", "migrate"] }
tempfile = "3"
thiserror = "1"
time = "0.3"
tokio = { version = "1", features = ["rt-multi-thread", "macros", "fs", "io-util", "net"] }
tower-cookies = "0.10"
tower-http = { version = "0.5", features = ["fs", "compression-gzip", "compression-br", "compression-deflate"] }
tracing = "0.1"
tracing-subscriber = { version = "0.3", features = ["env-filter"] }
urlencoding = "2"
uuid = { version = "1", features = ["v4"] }
validator = { version = "0.18", features = ["derive"] }
