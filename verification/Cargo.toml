[package]
name = "lemurs"
version = "0.1.0"
edition = "2021"
publish = false

[dependencies]
eframe = { version = "0.22", default-features = false, features = ["default_fonts", "glow"] }
rand = "0.8"
rustfft = "6"
threadpool = "1"
