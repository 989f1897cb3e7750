[package]
name = "brouas"
version = "0.1.0"
edition = "2021"
publish = false

[dependencies]
rand = "0.8"
hex = "0.4"
sled = "0.34"
const-utils = "*"
