[package]
name = "rustpbx"
version = "0.1.0"
edition = "2021"
publish = false

[dependencies]
serde = { version = "=1.0.229", features = ["derive"] }
serde_json = "=1.0.154"
toml = "=0.8.23"
bcrypt = "=0.15.1"
argon2 = "=0.5.3"
hmac = "=0.12.1"
sha2 = "=0.10.9"
base64 = "=0.22.1"
uuid = { version = "=1.29.0", features = ["v4"] }
chrono = "=0.4.45"
anyhow = "=1.0.104"
tokio = { version = "=1.54.1", features = ["rt-multi-thread", "macros", "time"] }
dashmap = "6"
dotenvy = "0.15"
