[package]
name = "http_relay"
version = "0.1.0"
edition = "2021"
publish = false

[dependencies]
reqwest = { version = "=0.12.28", default-features = false, features = ["blocking", "default-tls"] }
serde_json = "=1.0.154"
tauri = { version = "=2.12.5", default-features = false }
