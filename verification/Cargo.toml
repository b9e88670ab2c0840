[package]
name = "verglas"
version = "0.1.0"
edition = "2021"
publish = false

[dependencies]
font-types = "*"
read-fonts = "*"
write-fonts = "*"
kurbo = "*"
usvg = "*"
lyon = "*"
