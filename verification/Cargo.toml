[package]
name = "overslash_api"
version = "0.1.0"
edition = "2021"
publish = false

[dependencies]
hmac = "=0.12.1"
sha2 = "=0.10.9"
hex = "=0.4.3"
subtle = "=2.6.1"
base64 = "=0.22.1"
rand = "=0.10.3"
urlencoding = "=2.1.3"
url = "=2.5.8"
uuid = { version = "=1.29.0", features = ["v4"] }
argon2 = "=0.5.3"
time = "=0.3.55"
serde = { version = "=1.0.229", features = ["derive"] }
serde_json = "=1.0.154"
axum = "=0.8.9"
reqwest = { version = "0.12", default-features = false, features = ["rustls-tls"] }
