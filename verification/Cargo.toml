[package]
name = "queuepeek"
version = "0.1.0"
edition = "2021"
publish = false

[dependencies]
serde = { version = "=1.0.229", features = ["derive"] }
serde_json = "=1.0.154"
toml = "=0.8.23"
dirs = "=5.0.1"
uuid = { version = "=1.29.0", features = ["v4"] }
reqwest = { version = "=0.12.28", default-features = false, features = ["blocking", "json", "rustls-tls"] }
urlencoding = "=2.1.3"
base64 = "=0.22.1"
flate2 = "=1.1.10"
similar = "=2.7.0"
apache-avro = { version = "*", default-features = false }
