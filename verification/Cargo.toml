[package]
name = "version_switcher"
version = "0.1.0"
edition = "2021"
publish = false

[dependencies]
chrono = { version = "=0.4.45", default-features = false, features = ["clock", "std"] }
notify-rust = "4"
rfd = "0.15"
serde = { version = "=1.0.229", features = ["derive"] }
serde_json = "=1.0.154"
winapi = { version = "0.3", features = ["winuser"] }
winreg = "0.55"
