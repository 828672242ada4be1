[package]
name = "gline_rs"
version = "0.1.0"
edition = "2021"
publish = false

[dependencies]
ndarray = "=0.16.1"
ort = { version = "=2.0.0-rc.13", default-features = false, features = ["std"] }
