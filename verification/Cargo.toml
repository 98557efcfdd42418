[package]
name = "probor"
version = "0.3.1"
edition = "2021"
publish = false

[dependencies]
cbor-codec = "*"
byteorder = "*"
regex = "*"
