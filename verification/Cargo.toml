[package]
name = "obsidian_at_home"
version = "0.1.0"
edition = "2021"
publish = false

[dependencies]
serde = { version = "1", features = ["derive"] }
serde_json = "1"
walkdir = "2"
fontdb = "0.23"
tauri = { version = "2", default-features = false }
