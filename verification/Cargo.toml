[package]
name = "tam_intranet"
version = "0.1.0"
edition = "2021"
publish = false

[dependencies]
tl = "*"
chrono = "*"
serde_json = "*"
reqwest = { version = "*", default-features = false, features = ["blocking", "cookies", "rustls-tls"] }
