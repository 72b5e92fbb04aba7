[package]
name = "toroidal_life"
version = "0.1.0"
edition = "2021"
publish = false

[dependencies]
random = "0.12"
wasm-bindgen = "*"
js-sys = "*"
