[package]
name = "tilecast"
version = "0.1.0"
edition = "2021"
publish = false

[dependencies]
bytemuck = "1"
image = { version = "0.25", default-features = false, features = ["jpeg", "png"] }
rand = "0.8"
tobj = "4"
tokio = { version = "1", default-features = false, features = ["rt-multi-thread", "macros", "sync"] }
ultraviolet = { version = "0.9", features = ["bytemuck"] }
wgpu = "23"
