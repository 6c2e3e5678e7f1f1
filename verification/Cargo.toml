[package]
name = "tgv"
version = "0.1.0"
edition = "2021"
publish = false

[dependencies]
rayon = "=1.12.0"
ndarray = "=0.16.1"
nshare = "=0.10.0"
image = { version = "=0.25.10", default-features = false, features = ["png", "jpeg"] }
base64 = "=0.22.1"
leptos = { version = "=0.8.22", features = ["csr"] }
web-sys = { version = "=0.3.106", features = ["HtmlInputElement", "File", "FileList", "Blob"] }
wasm-bindgen-futures = "=0.4.79"
console_error_panic_hook = "=0.1.7"
