[package]
name = "colorvalue"
version = "0.1.0"
edition = "2021"
publish = false

[dependencies]
cint = "*"
lab = "*"
rgb = "*"
serde = "*"
