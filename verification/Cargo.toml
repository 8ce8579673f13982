[package]
name = "dondon"
version = "0.1.0"
edition = "2021"
publish = false

[dependencies]
cpal = "*"
eframe = { version = "*", default-features = false, features = ["glow", "x11", "default_fonts"] }
rtrb = "*"
