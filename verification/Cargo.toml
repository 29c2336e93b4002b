[package]
name = "web_crawler"
version = "0.1.0"
edition = "2021"
publish = false

[dependencies]
anyhow = "=1.0.104"
chrono = "=0.4.45"
diesel = { version = "=2.3.14", default-features = false, features = ["postgres"] }
dotenvy = "=0.15.7"
html5ever = "=0.39.0"
markup5ever_rcdom = "=0.39.0"
mongodb = { version = "=3.9.1", features = ["sync"] }
reqwest = { version = "=0.12.28", default-features = false, features = ["blocking", "rustls-tls"] }
yaml-rust = "=0.4.5"
