[package]
name = "erlangrt"
version = "0.1.0"
edition = "2021"
publish = false

[dependencies]
bytes = "*"
compress = "*"
num = "*"
