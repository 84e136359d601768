[package]
name = "compositor"
version = "0.1.0"
edition = "2021"
publish = false

[dependencies]
photon-rs = { version = "0.3", default-features = false }
serde = { version = "1", features = ["derive"] }
wasm-bindgen = "0.2"
serde-wasm-bindgen = "*"
web-sys = { version = "0.3", features = ["ImageData"] }
console_error_panic_hook = "0.1"
