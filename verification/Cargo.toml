[package]
name = "bettershot"
version = "0.1.0"
edition = "2021"
publish = false

[dependencies]
anyhow = "1"
arboard = "=3.7.0"
ashpd = { version = "=0.13.13", features = ["screenshot"] }
chrono = "0.4"
clap = { version = "4", features = ["derive"] }
eframe = { version = "=0.37.0", default-features = false, features = ["default_fonts", "glow", "x11", "wayland"] }
env_logger = "0.11"
global-hotkey = "=0.9.0"
image = { version = "=0.25.10", default-features = false, features = ["png", "jpeg", "webp"] }
log = "0.4"
notify-rust = "=4.18.2"
rfd = "=0.17.2"
tokio = { version = "1", features = ["rt", "time"] }
x11rb = { version = "=0.13.2", features = ["randr", "xfixes"] }
