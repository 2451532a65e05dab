[package]
name = "css_image"
version = "0.1.0"
edition = "2021"
publish = false

[dependencies]
cairo-rs = { version = "*", features = ["png"] }
rayon = "*"
regex = "*"
