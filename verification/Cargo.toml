[package]
name = "eyecandy"
version = "0.1.0"
edition = "2021"
publish = false

[dependencies]
three-d = { version = "*", default-features = false }
three-d-asset = "*"
cgmath = "*"
