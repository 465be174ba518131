[package]
name = "soundboard"
version = "0.1.0"
edition = "2021"
publish = false

[dependencies]
livesplit-hotkey = "0.7"
ringbuf = "0.3"
rodio = "0.17"
serde = { version = "1", features = ["derive"] }
serde_json = "1"
