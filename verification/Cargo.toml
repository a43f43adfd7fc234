[package]
name = "imui"
version = "0.1.0"
edition = "2021"
publish = false

[dependencies]
env_logger = "0.10"
fontdue = "0.8"
glam = "0.24"
log = "0.4"
pollster = "0.3"
winit = { version = "0.29", default-features = false, features = ["rwh_05", "x11"] }
