[package]
name = "strolle"
version = "0.1.0"
edition = "2021"
publish = false

[dependencies]
blue-noise-sampler = "0.1"
image = { version = "0.24", default-features = false, features = ["png"] }
log = "0.4"
rand = "0.8"
wgpu = { version = "0.17", default-features = false, features = ["spirv"] }
