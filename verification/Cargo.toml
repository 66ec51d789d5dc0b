[package]
name = "gammar"
version = "0.1.0"
edition = "2021"
publish = false

[dependencies]
dirs = "=7.0.0"
global-hotkey = "=0.9.0"
image = { version = "=0.25.10", default-features = false, features = ["png"] }
serde = { version = "=1.0.229", features = ["derive"] }
serde_json = "=1.0.154"
windows = { version = "0.61", features = ["Win32_Foundation", "Win32_Graphics_Gdi"] }
