[package]
name = "codeshot"
version = "0.1.0"
edition = "2021"
publish = false

[dependencies]
syntect = "*"
image = "*"
rustler = "*"
