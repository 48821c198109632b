[package]
name = "wasm_bridge"
version = "0.1.0"
edition = "2021"
publish = false

[dependencies]
anyhow = "=1.0.104"
arrow = { version = "=60.0.0", default-features = false, features = ["ipc", "prettyprint"] }
time = { version = "=0.3.55", features = ["macros"] }
wasmtime = "=36.0.19"
wasmtime-wasi = "=36.0.19"
