[package]
name = "roblox_std"
version = "0.1.0"
edition = "2021"
publish = false

[dependencies]
chrono = "0.4"
color-eyre = "0.6"
selene-lib = { version = "*", features = ["roblox"] }
serde = { version = "1", features = ["derive"] }
serde_yaml = "*"
ureq = { version = "2", features = ["json"] }
