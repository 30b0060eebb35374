[package]
name = "fastxlsxio"
version = "0.1.0"
edition = "2021"
publish = false

[dependencies]
rust_xlsxwriter = { version = "=0.102.0", features = ["constant_memory"] }
pyo3 = "=0.30.1"
