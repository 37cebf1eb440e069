[package]
name = "e2ee"
version = "0.1.0"
edition = "2021"
publish = false

[dependencies]
aws-lc-rs = "=1.18.2"
once_cell = "=1.21.4"
zeroize = "=1.9.1"

[dev-dependencies]
hex = "=0.4.3"
