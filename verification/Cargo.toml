[package]
name = "c0pl4nd"
version = "0.1.0"
edition = "2021"
publish = false

[dependencies]
egui = { version = "0.34", default-features = false }
egui_tiles = { version = "0.15", default-features = false }
eframe = { version = "0.34", default-features = false, features = ["glow", "x11", "persistence"] }
arboard = { version = "3", default-features = false }
rfd = "0.15"
zeroize = "1"

[dev-dependencies]
tempfile = "3"
