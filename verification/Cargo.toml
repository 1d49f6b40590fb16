[package]
name = "blitz_mustang"
version = "0.1.0"
edition = "2021"
publish = false

[dependencies]
anyrender = "*"
kurbo = "*"
peniko = "*"
