[package]
name = "unarc"
version = "0.1.0"
edition = "2021"
publish = false

[dependencies]
cab = "*"
tar = "*"
zip = { version = "*", default-features = false, features = ["deflate"] }
flate2 = "*"
bzip2 = "*"
rust-lzma = "*"
