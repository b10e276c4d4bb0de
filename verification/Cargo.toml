[package]
name = "llrt"
version = "0.1.0"
edition = "2021"
publish = false

[dependencies]
once_cell = "=1.21.4"
rquickjs = { version = "=0.14.0", features = ["loader"] }
