[package]
name = "bookshelf"
version = "0.1.0"
edition = "2021"
publish = false

[dependencies]
scraper = "=0.29.0"
url = "=2.5.8"
base64 = "=0.22.1"
serde = { version = "=1.0.229", features = ["derive"] }
rusqlite = { version = "=0.41.1", features = ["bundled"] }
reqwest = { version = "=0.12.28", default-features = false, features = ["blocking", "rustls-tls"] }
