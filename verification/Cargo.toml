[package]
name = "simple_open_gl"
version = "0.1.0"
edition = "2021"
publish = false

[dependencies]
imagefmt = "*"
