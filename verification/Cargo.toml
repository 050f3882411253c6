[package]
name = "beepeeyou"
version = "0.1.0"
edition = "2021"
publish = false

[dependencies]
cpal = "0.8"
libc = "0.2"
