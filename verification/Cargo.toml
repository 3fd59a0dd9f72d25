[package]
name = "anirust"
version = "0.1.0"
edition = "2021"
publish = false

[dependencies]
base64 = "0.13"
brotli = "*"
chrono = "*"
dotenvy = "*"
flate2 = "1"
http-body-util = "*"
hyper = { version = "1", features = ["full"] }
hyper-tls = "*"
hyper-util = { version = "0.1", features = ["client", "client-legacy", "http1", "tokio"] }
lazy_static = "1"
md5 = "0.7"
openssl = "0.10"
rand = "0.8"
regex = "1"
reqwest = { version = "0.12", features = ["blocking", "json"] }
scraper = "*"
serde = { version = "1", features = ["derive"] }
serde_json = "1"
tokio = { version = "1", features = ["full"] }
