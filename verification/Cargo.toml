[package]
name = "symphoxy"
version = "0.1.0"
edition = "2021"
publish = false

[dependencies]
hound = "3.5"
itertools = "0.14"
rodio = "0.20"
