[package]
name = "textbridge"
version = "0.1.0"
edition = "2021"
publish = false

[dependencies]
regex = "=1.13.1"
vrl = { version = "=0.22.0", default-features = false, features = ["stdlib"] }
