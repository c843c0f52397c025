[package]
name = "triangles"
version = "0.1.0"
edition = "2021"
publish = false

[dependencies]
console_error_panic_hook = "=0.1.7"
ncollide2d = "0.33"
rand = "=0.7.3"
rand_core = "=0.5.1"
rand_pcg = "=0.2.1"
wasm-bindgen = "=0.2.129"
