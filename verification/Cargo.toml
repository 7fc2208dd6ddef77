[package]
name = "ntcore"
version = "0.1.0"
edition = "2021"
publish = false

[dependencies]
ntcore-sys = "*"
lazy_static = "*"
