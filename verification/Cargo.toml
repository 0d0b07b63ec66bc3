[package]
name = "clip_service"
version = "0.1.0"
edition = "2021"
publish = false

[dependencies]
chrono = { version = "=0.4.45", default-features = false, features = ["clock", "std"] }
serde = { version = "=1.0.229", features = ["derive"] }
crossbeam-channel = "=0.5.17"
global-hotkey = "=0.9.0"
open = "=5.4.5"
