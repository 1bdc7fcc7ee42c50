[package]
name = "vibe_core"
version = "0.1.0"
edition = "2021"
publish = false

[dependencies]
hound = "3"
sha256 = "1"
urlencoding = "2"
rand = "0.8"
serde = { version = "1", features = ["derive"] }
serde_json = "1"
chrono = "0.4"
