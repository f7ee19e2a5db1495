[package]
name = "thumbor"
version = "0.1.0"
edition = "2021"
publish = false

[dependencies]
anyhow = "*"
axum = "*"
base64 = "=0.23.1"
bytes = "*"
lru = { version = "=0.18.5", default-features = false }
percent-encoding = "*"
photon-rs = "=0.3.3"
reqwest = { version = "*", default-features = false, features = ["rustls-tls"] }
serde = { version = "*", features = ["derive"] }
tokio = { version = "*", features = ["rt-multi-thread", "macros", "net", "sync"] }
tracing = "*"
tracing-subscriber = "*"

[dev-dependencies]
image = "=0.25.10"
