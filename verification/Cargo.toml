[package]
name = "comik"
version = "0.1.0"
edition = "2021"
publish = false

[dependencies]
zip = { version = "*", default-features = false, features = ["deflate"] }
unrar = "*"
image = { version = "*", default-features = false, features = ["png", "jpeg"] }
tempfile = "*"
