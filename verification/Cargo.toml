[package]
name = "zggsds"
version = "0.1.0"
edition = "2021"
publish = false

[dependencies]
axum = "=0.7.9"
bcrypt = "=0.15.1"
chrono = { version = "=0.4.45", features = ["serde"] }
jsonwebtoken = "=9.3.1"
mime_guess = "=2.0.5"
percent-encoding = "=2.3.2"
rust-embed = { version = "=8.13.0", features = ["interpolate-folder-path"] }
rust_xlsxwriter = "=0.102.0"
sea-orm = { version = "=1.1.20", default-features = false, features = ["macros", "with-chrono", "sqlx-sqlite", "runtime-tokio-rustls"] }
serde = { version = "=1.0.229", features = ["derive"] }
serde_json = "=1.0.154"
tokio = { version = "=1.54.1", features = ["macros", "rt-multi-thread", "net"] }
