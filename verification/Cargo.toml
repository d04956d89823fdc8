[package]
name = "try_again"
version = "0.1.0"
edition = "2021"
publish = false

[dependencies]
async-std = "1"
http = "1"

[dev-dependencies]
rand = "0.8"
