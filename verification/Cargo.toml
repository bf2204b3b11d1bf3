[package]
name = "scene_mesh"
version = "0.1.0"
edition = "2021"
publish = false

[dependencies]
gleam = "*"
image = { version = "*", default-features = false, features = ["bmp", "tga"] }
