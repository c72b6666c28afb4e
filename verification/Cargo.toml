[package]
name = "model_pipeline"
version = "0.1.0"
edition = "2021"
publish = false

[dependencies]
zip = { version = "*", default-features = false, features = ["deflate"] }
image = { version = "*", default-features = false, features = ["png", "jpeg"] }
ureq = { version = "*", default-features = false }
piston_window = "*"
camera_controllers = "*"
cgmath = "*"
gfx = "*"
gfx_core = "*"
gfx_device_gl = "*"
shader_version = "*"
rand = "*"
