[package]
name = "ardaku"
version = "0.1.0"
edition = "2021"
publish = false

[dependencies]
wasmi = "0.31"
