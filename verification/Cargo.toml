[package]
name = "web_backend"
version = "0.1.0"
edition = "2021"
publish = false

[dependencies]
uiua = { version = "=0.0.22", default-features = false }
image = { version = "=0.24.9", default-features = false, features = ["png"] }
instant = "=0.1.13"
js-sys = "=0.3.106"
wasm-bindgen = "=0.2.129"
leptos = { version = "=0.5.7", default-features = false }
