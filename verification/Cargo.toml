[package]
name = "plotkit-core"
version = "0.1.0"
edition = "2021"
publish = false

[dependencies]
colorous = "1"
kurbo = "*"
ndarray = "0.16"
polars = { version = "*", default-features = false }
