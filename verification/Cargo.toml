[package]
name = "rust-tracker-bot"
version = "0.1.0"
edition = "2021"
publish = false

[dependencies]
anyhow = "=1.0.104"
poise = "=0.6.2"
shuttle-runtime = "=0.57.0"
shuttle-serenity = "=0.57.0"
shuttle-shared-db = { version = "=0.57.0", features = ["postgres", "sqlx"] }
sqlx = { version = "0.8", features = ["postgres", "runtime-tokio"] }
