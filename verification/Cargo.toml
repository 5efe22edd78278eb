[package]
name = "sora"
version = "0.1.0"
edition = "2021"
publish = false

[dependencies]
dashmap = "=6.2.1"
whatsapp-rust = { version = "=0.7.0", default-features = false, features = ["sqlite-storage", "tokio-transport", "tokio-runtime", "ureq-client", "tokio-native", "signal"] }
tokio = { version = "=1.54.1", features = ["full"] }
serde = { version = "=1.0.229", features = ["derive"] }
toml = "=1.1.8"
anyhow = "=1.0.104"
dotenvy = "=0.15.7"
colored = "=3.1.1"
chrono = "=0.4.45"
qr2term = "=0.3.3"
reqwest = { version = "=0.13.5", default-features = false }
