[package]
name = "minichain"
version = "0.1.0"
edition = "2021"
publish = false

[dependencies]
chrono = "=0.4.45"
ecdsa = "=0.17.0"
hex = "=0.4.3"
k256 = { version = "=0.14.0", features = ["getrandom"] }
serde = { version = "=1.0.229", features = ["derive"] }
serde_json = "=1.0.151"
sha256 = "=1.6.0"
tokio = { version = "=1.53.2", features = ["full"] }
