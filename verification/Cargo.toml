[package]
name = "oneleg"
version = "0.1.0"
edition = "2021"
publish = false

[dependencies]
hmac = "0.12"
sha2 = "0.10"
hex = "0.4"
base64 = "0.13"
reqwest = { version = "0.11", default-features = false }
tokio = { version = "1", features = ["rt-multi-thread", "macros", "sync", "time"] }
tokio-tungstenite = "0.21"
futures-util = "0.3"
chrono = { version = "0.4", default-features = false, features = ["clock"] }
