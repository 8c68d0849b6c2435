[package]
name = "ax_exchange_sdk"
version = "0.1.0"
edition = "2021"
publish = false

[dependencies]
anyhow = "=1.0.104"
arc-swap = "=1.9.3"
arcstr = "=1.2.0"
chrono = { version = "=0.4.45", default-features = false, features = ["std", "clock", "serde"] }
log = "=0.4.35"
regex = "=1.13.1"
reqwest = { version = "=0.12.28", default-features = false, features = ["json"] }
rust_decimal = "=1.43.0"
serde = { version = "=1.0.229", features = ["derive"] }
serde_json = "=1.0.154"
serde_with = "=3.24.0"
ulid = "=1.2.1"
url = "=2.5.8"

[dev-dependencies]
serde_urlencoded = "0.7"
