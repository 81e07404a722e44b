[package]
name = "escli"
version = "0.1.0"
edition = "2021"
publish = false

[dependencies]
serde_json = "*"
clap = { version = "*", features = ["derive"] }
tokio = { version = "*", features = ["macros", "rt", "fs", "io-util", "io-std"] }
elasticsearch = { version = "=9.1.0-alpha.1", default-features = false, features = ["rustls-tls"] }
http = "*"
