[package]
name = "sic"
version = "0.1.0"
edition = "2021"
publish = false

[dependencies]
peekmore = "*"
clap = "2"
atty = "0.2"
image = { version = "0.23", default-features = false, features = ["png", "jpeg", "bmp", "pnm"] }
