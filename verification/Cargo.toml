[package]
name = "sd_rust"
version = "0.1.0"
edition = "2021"
publish = false

[dependencies]
anyhow = "=1.0.104"
clap = { version = "=4.6.7", features = ["derive"] }
dirs = "=7.0.0"
elgato-streamdeck = "0.13"
env_logger = "=0.11.11"
evdev = "=0.13.2"
freedesktop-icons = "=0.4.0"
image = { version = "=0.25.10", default-features = false, features = ["png", "jpeg", "bmp", "gif", "webp", "tiff", "ico"] }
libc = "0.2"
libpulse-binding = "=2.30.1"
log = "0.4"
obws = { version = "=0.15.0", features = ["events"] }
resvg = "=0.49.0"
serde = { version = "1", features = ["derive"] }
tokio = { version = "1", features = ["rt", "sync", "time", "macros", "net"] }
tokio-stream = "0.1"
toml = "=1.1.8"
zbus = "5"
