[package]
name = "aria_player"
version = "0.1.0"
edition = "2021"
publish = false

[dependencies]
lofty = "=0.21.1"
serde = { version = "=1.0.229", features = ["derive"] }
serde_json = "=1.0.154"
sha2 = "=0.10.9"
url = "=2.5.8"
tauri = { version = "2", default-features = false }
