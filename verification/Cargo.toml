[package]
name = "genie_rust"
version = "0.1.0"
edition = "2021"
publish = false

[dependencies]
byteorder = "1"
flate2 = "1"
pyo3 = { version = "0.20", features = ["abi3-py37"] }
serde = { version = "1", features = ["derive"] }
