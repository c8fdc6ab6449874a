[package]
name = "zkenc"
version = "0.1.0"
edition = "2021"
publish = false

[dependencies]
rsa = "0.9"
rand = "0.8"
num-traits = "0.2"
risc0-zkvm = "*"
bincode = "1"
hex = "*"
