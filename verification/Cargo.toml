[package]
name = "url_tokenizer"
version = "0.1.0"
edition = "2021"
publish = false

[dependencies]
eframe = { version = "=0.28.1", default-features = false, features = ["default_fonts", "glow"] }
egui = { version = "=0.28.1", default-features = false }
