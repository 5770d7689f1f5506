[package]
name = "rustedbytes_bytepusher_rombuilder"
version = "0.1.0"
edition = "2021"
publish = false

[dependencies]
glob = "*"
rand = "*"

[dependencies.image]
version = "*"
default-features = false
features = ["png"]
