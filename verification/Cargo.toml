[package]
name = "niri_taskbar"
version = "0.1.0"
edition = "2021"
publish = false

[dependencies]
anyhow = "=1.0.104"
async-channel = "=2.5.0"
async-stream = "=0.3.6"
bitflags = "=2.13.2"
freedesktop-icons = "=0.4.0"
futures = "=0.3.34"
itertools = "=0.15.0"
linicon = "=2.3.0"
niri-ipc = "=26.4.0"
regex = "=1.13.1"
serde = { version = "=1.0.229", features = ["derive"] }
thiserror = "=2.0.21"
tracing = "=0.1.44"
tracing-subscriber = { version = "=0.3.23", features = ["env-filter"] }
waybar-cffi = "=0.1.1"
zbus = "=6.1.0"
