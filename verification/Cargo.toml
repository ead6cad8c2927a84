[package]
name = "icy_metadata"
version = "0.1.0"
edition = "2021"
publish = false

[dependencies]
futures = "0.3"
http = "1"
reqwest = { version = "0.12", default-features = false, features = ["stream"] }
tauri = { version = "2", default-features = false, features = ["wry"] }
tokio = { version = "1", features = ["io-util"] }
tokio-util = { version = "0.7", features = ["io"] }
