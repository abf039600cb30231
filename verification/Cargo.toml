[package]
name = "stable_swap_quote"
version = "0.1.0"
edition = "2021"
publish = false

[dependencies]
primitive-types = "*"
wasm-bindgen = "*"
js-sys = "*"
