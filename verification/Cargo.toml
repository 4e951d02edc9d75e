[package]
name = "pyxirr"
version = "0.1.0"
edition = "2021"
publish = false

[dependencies]
time = { version = "0.3", features = ["parsing", "macros"] }
chrono = "0.4"
ndarray = "0.16"
libc = "0.2"
pyo3 = "0.23"
numpy = "0.23"
