[package]
name = "rc5_minx"
version = "0.1.0"
edition = "2021"
publish = false

[dependencies]
serial = "0.4.0"
