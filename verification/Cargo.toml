[package]
name = "pauza"
version = "0.1.0"
edition = "2021"
publish = false

[dependencies]
crossbeam = "0.8"
native-windows-gui = "1.0"
winapi = { version = "0.3", features = ["winuser", "sysinfoapi"] }
