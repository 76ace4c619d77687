[package]
name = "chess_engine"
version = "0.1.0"
edition = "2021"
publish = false

[dependencies]
chess = "=3.2.0"
eframe = { version = "=0.24.1", default-features = false, features = ["glow", "default_fonts", "x11"] }
egui_extras = { version = "=0.24.2", default-features = false }
thousands = "=0.2.0"
