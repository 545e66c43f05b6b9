[package]
name = "nomi_log"
version = "0.1.0"
edition = "2021"
publish = false

[dependencies]
log = "0.4"
rusqlite = "*"
rusqlite_migration = "*"
serde = { version = "1", features = ["derive"] }
tauri = { version = "2", default-features = false }
tauri-plugin-log = "2"
