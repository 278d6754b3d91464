[package]
name = "ipeenv"
version = "0.1.0"
edition = "2021"
publish = false

[dependencies]
zip = "9.2"
serde = { version = "1", features = ["derive"] }
serde_json = "1"
chrono = "0.4"
reqwest = { version = "0.12", default-features = false, features = ["blocking", "rustls-tls"] }
