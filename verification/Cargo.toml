[package]
name = "codex_manager"
version = "0.1.0"
edition = "2021"
publish = false

[dependencies]
dirs = "6"
serde = { version = "1", features = ["derive"] }
serde_json = "1"
tauri = { version = "2", default-features = false, features = ["wry", "tray-icon", "common-controls-v6"] }
