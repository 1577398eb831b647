[package]
name = "backup_core"
version = "0.1.0"
edition = "2021"
publish = false

[dependencies]
chrono = { version = "=0.4.45", features = ["serde"] }
emver = "=0.1.6"
regex = "=1.4.6"
rust-argon2 = "=1.0.1"
serde = { version = "=1.0.229", features = ["derive"] }
serde_json = "=1.0.154"
tokio = { version = "=1.54.1", features = ["fs", "io-util", "sync"] }
url = "=2.5.8"
uuid = { version = "=1.29.0", features = ["v4"] }

[dev-dependencies]
rand = "=0.8.8"
