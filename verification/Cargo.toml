[package]
name = "rosemary"
version = "0.1.0"
edition = "2021"
publish = false

[dependencies]
urlencoding = "=2.1.3"
actix-web = "=4.18.1"
actix-logger = "=0.4.1"
deadpool-redis = "=0.23.1"
eyre = "=0.6.14"
serde = { version = "=1.0.229", features = ["derive"] }
serde_bencode = "=0.2.4"
twink = { version = "=1.1.3", features = ["log"] }
