[package]
name = "slick"
version = "0.1.0"
edition = "2021"
publish = false

[dependencies]
serde = { version = "1", features = ["derive"] }
serde_json = "1"
pyo3 = { version = "*", features = ["abi3-py38"] }
wasm-bindgen = "0.2"
serde-wasm-bindgen = "0.6"
