[package]
name = "wou_id"
version = "0.1.0"
edition = "2021"
publish = false

[dependencies]
sha2 = "=0.10.9"
sha3 = "=0.10.9"
hex = "=0.4.3"
bs58 = "=0.5.1"
urlencoding = "=2.1.3"
serde = { version = "=1.0.229", features = ["derive"] }
serde_json = { version = "=1.0.154", features = ["preserve_order"] }
rand = "=0.8.8"
uuid = { version = "=1.29.0", features = ["v4"] }
chrono = "=0.4.45"
ed25519-dalek = "=2.2.0"
k256 = { version = "=0.13.4", features = ["ecdsa"] }
thiserror = "=1.0.69"
jsonwebtoken = "=9.3.1"
nanoid = "=0.4.0"
redb = "=2.6.4"
redis = { version = "=0.27.6", features = ["aio", "tokio-comp"] }
reqwest = { version = "=0.12.28", features = ["json"] }
lettre = { version = "=0.11.23", default-features = false, features = ["builder", "hostname", "smtp-transport", "tokio1", "tokio1-native-tls"] }
axum = { version = "=0.7.9", features = ["multipart"] }
tokio = { version = "=1.54.1", features = ["full"] }
tower-http = { version = "=0.5.2", features = ["cors", "trace"] }
tracing = "=0.1.44"
tracing-subscriber = { version = "=0.3.23", features = ["env-filter"] }
