[package]
name = "spsl"
version = "0.1.0"
edition = "2021"
publish = false

[dependencies]
glsl = "0.9"
any-cache = "*"
notify = "4"
luminance = "*"
