[package]
name = "hydroshot"
version = "0.1.0"
edition = "2021"
publish = false

[dependencies]
base64 = "0.22"
serde_json = "1"
serde = { version = "1", features = ["derive"] }
toml = "0.8"
dirs = "5"
chrono = { version = "0.4", default-features = false, features = ["clock", "std"] }
clap = { version = "4", features = ["derive"] }
image = { version = "0.25", default-features = false, features = ["png", "jpeg", "webp"] }
tiny-skia = "0.11"
winit = { version = "0.30", default-features = false, features = ["x11", "rwh_06"] }
softbuffer = { version = "0.4", default-features = false, features = ["x11"] }
arboard = "3"
fontdue = "0.9"
global-hotkey = "0.6"
resvg = { version = "0.45", default-features = false }
tracing = "0.1"
tracing-subscriber = "0.3"
tray-icon = "0.19"
x11rb = "0.13"
thiserror = "1"
