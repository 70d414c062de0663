[package]
name = "rundeck"
version = "0.1.0"
edition = "2021"
publish = false

[dependencies]
dirs = "5"
parking_lot = "0.12"
portable-pty = "0.8"
serde = { version = "1", features = ["derive"] }
serde_json = "1"
tauri = { version = "2", default-features = false }
