[package]
name = "rend_vk"
version = "0.1.0"
edition = "2021"
publish = false

[dependencies]
ash = "0.38"
ash-window = "0.13"
bitvec = "1"
glam = "0.29"
lazy_static = "1"
log = "0.4"
log4rs = "1"
log-panics = "2"
raw-window-handle = "0.6"
serde = { version = "1", features = ["derive"] }
serde_json = "1"
strum_macros = "0.26"
winit = "0.29"
