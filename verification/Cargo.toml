[package]
name = "messenger"
version = "0.1.0"
edition = "2021"
publish = false

[dependencies]
base64 = "*"
chrono = "*"
percent-encoding = "*"
libsodium-rs = "*"
facet = "*"
facet-json = "*"
