[package]
name = "chiver"
version = "0.1.0"
edition = "2021"
publish = false

[dependencies]
scraper = "*"
serde_json = "*"
http = "*"
rand = "*"
reqwest = { version = "*", default-features = false, features = ["blocking", "cookies", "socks", "rustls-tls"] }
