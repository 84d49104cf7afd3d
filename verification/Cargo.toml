[package]
name = "daphne"
version = "0.1.0"
edition = "2021"
publish = false

[dependencies]
rand = "0.8"
url = "2"
sha2 = "0.10"

[dev-dependencies]
matchit = "*"
