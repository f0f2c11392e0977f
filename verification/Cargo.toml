[package]
name = "langateway"
version = "0.3.0"
edition = "2021"
publish = false

[dependencies]
encoding_rs = "0.8"
serde = { version = "1", features = ["derive"] }
serde_json = "1"
toml = "0.8"
ureq = "3"
egui = { version = "0.31", default-features = false, features = ["default_fonts"] }
eframe = { version = "0.31", default-features = false, features = ["glow", "x11", "default_fonts"] }
