[package]
name = "zap"
version = "0.1.0"
edition = "2021"
publish = false

[dependencies]
semver = "1"
url = "2"
serde_json = "1"
rand = "0.8"
serde = { version = "1", features = ["derive"] }
dirs = "5"
libc = "0.2"
log = "0.4"
tokio = { version = "1", default-features = false, features = ["rt", "time"] }
reqwest = { version = "0.12", default-features = false, features = ["json", "rustls-tls"] }
axum = { version = "0.7", default-features = false, features = ["query"] }
