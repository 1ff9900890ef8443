[package]
name = "data_coalition"
version = "0.1.0"
edition = "2021"
publish = false

[dependencies]
multiversx-sc = "=0.52.3"
