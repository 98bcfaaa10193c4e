[package]
name = "ip_pool"
version = "0.1.0"
edition = "2021"
publish = false

[dependencies]
actix-web = "4"
env_logger = "*"
fred = "10"
log = "0.4"
rand = "0.9"
reqwest = { version = "0.12", default-features = false, features = ["socks", "rustls-tls"] }
scraper = "*"
serde = { version = "1", features = ["derive"] }
serde_json = "1"
tokio = { version = "1", features = ["full"] }
