[package]
name = "timestamp_converter"
version = "0.1.0"
edition = "2021"
publish = false

[dependencies]
tauri = { version = "=2.12.5", default-features = false }
serde = { version = "=1.0.229", features = ["derive"] }
chrono = "=0.4.45"
