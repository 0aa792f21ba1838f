[package]
name = "mouse-shaker"
version = "0.5.0"
edition = "2021"
publish = false

[dependencies]
image = { version = "=0.25.10", default-features = false, features = ["png"] }
crossbeam-channel = "=0.5.17"
core_affinity = "=0.8.3"
raw-window-handle = "=0.6.2"
windows-sys = { version = "=0.61.2", features = ["Win32_Foundation", "Win32_UI_WindowsAndMessaging"] }
rpmalloc = "=0.2.2"
tracing = "=0.1.44"
tracing-subscriber = "=0.3.23"
enigo = "=0.6.1"
tray-icon = { version = "0.23", default-features = false }
