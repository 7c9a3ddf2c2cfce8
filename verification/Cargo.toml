[package]
name = "hlsget"
version = "0.1.0"
edition = "2021"
publish = false

[dependencies]
aes = "0.7"
base64 = "0.13"
block-modes = "0.8"
bytes = "*"
indicatif = "*"
reqwest = { version = "*", default-features = false, features = ["blocking"] }
tempdir = "*"
