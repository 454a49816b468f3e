[package]
name = "windowscodexmonitor"
version = "0.1.0"
edition = "2021"
publish = false

[dependencies]
chrono = "0.4"
font8x8 = "0.3"
fontdue = "0.9"
image = { version = "0.25", default-features = false }
serde = { version = "1", features = ["derive"] }
serde_json = "1"
softbuffer = "0.4"
tray-icon = "*"
winit = "0.30"
winreg = "*"
