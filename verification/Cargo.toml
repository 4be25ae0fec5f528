[package]
name = "rust_tesseract"
version = "0.1.0"
edition = "2021"
publish = false

[dependencies]
image = { version = "0.25", default-features = false, features = ["png"] }
lazy_static = "1"
multimap = { version = "0.10", default-features = false }
ndarray = "0.16"
polars = { version = "0.43", default-features = false }
