[package]
name = "termdrawascii"
version = "0.1.0"
edition = "2021"
publish = false

[dependencies]
anyhow = "1"
image = { version = "=0.24.9", default-features = false, features = ["png", "jpeg"] }
serde_json = "1"
tungstenite = "=0.19.0"
uuid = "1"
