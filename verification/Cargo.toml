[package]
name = "rusty_sheet"
version = "0.1.0"
edition = "2021"
publish = false

[dependencies]
pyo3 = { version = "=0.20.3", features = ["auto-initialize"] }
druid = "0.7"
gl = "0.14"
glutin = "0.28"
skia-safe = { version = "0.47", features = ["gl"] }
