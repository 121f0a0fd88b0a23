[package]
name = "velox"
version = "0.1.0"
edition = "2021"
publish = false

[dependencies]
content_inspector = "*"
crossbeam-channel = "*"
notify-rust = "*"
portpicker = "*"
serde = { version = "*", features = ["derive"] }
serde_json = "*"
threadpool = "*"
tiny_http = "*"
tinyfiledialogs = "*"
toml = "*"
tungstenite = "*"
