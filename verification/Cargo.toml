[package]
name = "audio_switcher"
version = "0.1.0"
edition = "2021"
publish = false

[dependencies]
serde = { version = "1", features = ["derive"] }
serde_json = "1"
image = { version = "*", default-features = false, features = ["ico", "png"] }
dirs = "*"
global-hotkey = "*"
tray-icon = "*"
gtk = "0.18"
eframe = { version = "*", default-features = false, features = ["glow", "x11", "default_fonts"] }
