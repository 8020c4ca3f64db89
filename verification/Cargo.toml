[package]
name = "hypeterm"
version = "0.1.0"
edition = "2021"
publish = false

[dependencies]
axum = { version = "=0.8.9", features = ["ws"] }
base64 = "=0.23.1"
chacha20poly1305 = "=0.11.0"
chrono = "=0.4.45"
clap = { version = "=4.6.7", features = ["derive"] }
crossterm = "=0.29.0"
ed25519-dalek = { version = "=3.0.0", features = ["rand_core"] }
futures-util = { version = "=0.3.34", features = ["sink"] }
hmac = "=0.13.0"
libc = "=0.2.191"
portable-pty = "=0.9.0"
r2d2 = "=0.8.10"
rand = "=0.10.3"
reqwest = { version = "=0.13.5", default-features = false, features = ["json", "rustls-no-provider"] }
rusqlite = { version = "=0.41.1", features = ["bundled"] }
rustls = { version = "=0.23.46", default-features = false, features = ["std", "ring"] }
serde = { version = "=1.0.229", features = ["derive"] }
serde_json = "=1.0.154"
sha2 = "=0.11.1"
thiserror = "=2.0.21"
tokio = { version = "=1.54.1", features = ["full"] }
tokio-tungstenite = { version = "=0.30.0", features = ["rustls-tls-webpki-roots"] }
tower-http = { version = "=0.7.1", features = ["limit"] }
tracing = "=0.1.44"
tracing-subscriber = { version = "=0.3.23", features = ["env-filter", "json"] }
uuid = { version = "=1.29.0", features = ["v4"] }
