[package]
name = "dinotty"
version = "0.1.0"
edition = "2021"
publish = false

[dependencies]
subtle = "=2.6.1"
serde = { version = "=1.0.229", features = ["derive"] }
serde_json = "=1.0.154"
base64 = "=0.22.1"
axum = { version = "=0.7.9", features = ["ws"] }
dirs = "=5.0.1"
uuid = { version = "=1.29.0", features = ["v4"] }
urlencoding = "=2.1.3"
tokio = { version = "=1.54.1", features = ["full"] }
futures-util = "=0.3.34"
dashmap = "=6.2.1"
tracing = "=0.1.44"
tracing-subscriber = { version = "=0.3.23", features = ["env-filter"] }
axum-server = { version = "=0.7.3", default-features = false, features = ["tls-rustls-no-provider"] }
rustls = { version = "=0.23.46", default-features = false, features = ["ring", "std", "tls12", "logging"] }
rust-embed = { version = "=8.13.0", features = ["interpolate-folder-path"] }
mime_guess = "=2.0.5"
tokio-tungstenite = "=0.24.0"
reqwest = { version = "0.12", default-features = false }
