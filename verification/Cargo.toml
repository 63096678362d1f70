[package]
name = "modsyncnext2"
version = "0.1.0"
edition = "2021"
publish = false

[dependencies]
dotenvy = "0.15"
lazy_static = "1"
rfd = { version = "0.15", default-features = false }
serde = { version = "1", features = ["derive"] }
serde_json = "1"
sha2 = "0.10"
tauri = { version = "2", default-features = false }
toml = "0.8"
