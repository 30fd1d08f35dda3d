[package]
name = "psl"
version = "0.1.0"
edition = "2021"
publish = false

[dependencies]
colored = "=2.2.0"
js-sys = "=0.3.106"
once_cell = "=1.21.4"
proc-macro2 = "=1.0.107"
quote = "=1.0.47"
serde = { version = "=1.0.229", features = ["derive"] }
serde_derive_internals = "=0.29.1"
serde_json = "=1.0.154"
syn = { version = "=2.0.119", features = ["full"] }
tsify = "=0.5.8"
wasm-bindgen = "=0.2.129"
