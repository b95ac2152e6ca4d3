[package]
name = "isekai-util"
version = "0.1.0"
edition = "2021"
publish = false

[dependencies]
anyhow = "1"
axum = "0.8"
base64 = "0.22"
hickory-net = "*"
hickory-resolver = "*"
instant-acme = "*"
openssl = "0.10"
p256 = { version = "0.13", features = ["ecdsa", "jwk"] }
reqwest = { version = "*", features = ["json"] }
rustls = "0.23"
serde = { version = "1", features = ["derive"] }
serde_json = "1"
sha2 = "0.10"
thiserror = "2"
tokio = { version = "1", features = ["full"] }
tokio-util = "0.7"
tracing = "0.1"
x509-parser = "*"
