[package]
name = "iterm_player"
version = "0.1.0"
edition = "2021"
publish = false

[dependencies]
crossterm = "0.28"
gstreamer = "0.23"
gstreamer-app = "0.23"
ratatui = "0.29"
reqwest = { version = "0.12", default-features = false, features = ["blocking", "json", "rustls-tls"] }
rustfft = "6"
serde_json = "1"
