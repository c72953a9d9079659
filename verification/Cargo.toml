[package]
name = "history_launcher"
version = "0.1.0"
edition = "2021"
publish = false

[dependencies]
fuzzy-matcher = "=0.3.7"
dirs = "=7.0.0"
sqlx = { version = "=0.8.6", default-features = false, features = ["runtime-tokio", "sqlite"] }
tokio = { version = "=1.53.2", default-features = false, features = ["rt", "macros"] }
