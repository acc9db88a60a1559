[package]
name = "textswitch"
version = "0.1.0"
edition = "2021"
publish = false

[dependencies]
toml = "=1.1.8"
serde = { version = "=1.0.229", features = ["derive"] }
dirs = "=7.0.0"
notify = "=8.2.1"
arboard = { version = "=3.7.0", default-features = false }
rdev = { version = "=0.5.3", features = ["unstable_grab"] }
eframe = { version = "=0.37.0", default-features = false, features = ["glow", "default_fonts", "x11"] }
tray-icon = "=0.26.1"
