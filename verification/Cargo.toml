[package]
name = "easy_occp"
version = "0.1.0"
edition = "2021"
publish = false

[dependencies]
anyhow = "=1.0.104"
argon2 = "=0.5.3"
askama = "=0.12.1"
axum = "=0.7.9"
chrono = "=0.4.45"
dashmap = "=6.2.1"
mime_guess = "=2.0.5"
printpdf = { version = "=0.7.0", default-features = false }
rand_core = { version = "=0.6.4", features = ["getrandom"] }
rust-embed = "=8.13.0"
serde = { version = "=1.0.229", features = ["derive"] }
serde_json = { version = "=1.0.154", features = ["float_roundtrip"] }
sqlx = { version = "=0.8.6", default-features = false, features = ["runtime-tokio", "sqlite", "derive"] }
thiserror = "=1.0.69"
tokio = { version = "=1.54.1", features = ["full"] }
toml = "=0.8.23"
tower-http = { version = "=0.5.2", features = ["trace"] }
tracing = "=0.1.44"
tracing-subscriber = "0.3"
uuid = { version = "=1.29.0", features = ["v4"] }
