[package]
name = "stackling"
version = "0.1.0"
edition = "2021"
publish = false

[dependencies]
reblessive = "*"
