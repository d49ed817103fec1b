[package]
name = "extension_host"
version = "0.1.0"
edition = "2021"
publish = false

[dependencies]
wasmtime = { version = "=36.0.19", default-features = false, features = ["runtime", "component-model", "std"] }
wit-bindgen-rt = "=0.36.0"
