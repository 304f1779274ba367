[package]
name = "fastcdc"
version = "0.1.0"
edition = "2021"
publish = false

[dependencies]
bytes = "1"
futures = "0.3"
rand_chacha = "0.3"
tokio = "1"
