[package]
name = "securepad"
version = "0.1.0"
edition = "2021"
publish = false

[dependencies]
crossterm = "*"
rpassword = "*"
sha2 = "*"
