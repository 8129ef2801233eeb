[package]
name = "latex_telegram_bot"
version = "0.1.0"
edition = "2021"
publish = false

[dependencies]
chrono = "0.4"
chrono-tz = "0.8"
serde_json = "1"
urlencoding = "2"
serde = { version = "1", features = ["derive"] }
anyhow = "1"
reqwest = { version = "0.11", default-features = false, features = ["json", "multipart", "rustls-tls"] }
tokio = { version = "1", features = ["full"] }
futures = "0.3"
futures-util = "0.3"
tokio-tungstenite = { version = "0.20", features = ["rustls-tls-webpki-roots"] }
tera = { version = "1", default-features = false }
