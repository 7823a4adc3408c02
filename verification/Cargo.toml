[package]
name = "mathtex"
version = "0.1.0"
edition = "2021"
publish = false

[dependencies]
miniz_oxide = "*"
rustybuzz = "*"
ttf-parser = "*"
once_cell = "*"
self_cell = "*"
