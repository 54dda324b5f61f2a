[package]
name = "semiring"
version = "0.1.0"
edition = "2021"
publish = false

[dependencies]
egg = "0.6"
clap = "2"
