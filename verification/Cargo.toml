[package]
name = "snap_launch"
version = "1.0.0"
edition = "2021"
publish = false

[dependencies]
egui = { version = "0.31", default-features = false, features = ["default_fonts"] }
image = { version = "0.25", default-features = false, features = ["png"] }
serde = { version = "1", features = ["derive"] }
serde_json = "1"
winreg = "0.52"
