[package]
name = "hozon"
version = "0.1.0"
edition = "2021"
publish = false

[dependencies]
regex = "*"
image = "*"
chrono = "*"
zip = "*"
epub-builder = "*"
