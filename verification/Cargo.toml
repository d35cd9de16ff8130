[package]
name = "whiteout"
version = "0.1.0"
edition = "2021"
publish = false

[dependencies]
bear-lib-terminal = "*"
cgmath = "0.18"
rand = "0.7"
