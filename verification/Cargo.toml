[package]
name = "spec_windows"
version = "0.1.0"
edition = "2021"
publish = false

[dependencies]
interprocess = "2"
serde = { version = "1", features = ["derive"] }
serde_json = "1"
tiny-skia = "0.11"
tray-icon = { version = "0.19", default-features = false }
winit = { version = "0.30", default-features = false }
winreg = "*"
winrt-notification = "0.5"
