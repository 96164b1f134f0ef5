[package]
name = "wasmtime_http"
version = "0.1.0"
edition = "2021"
publish = false

[dependencies]
anyhow = "1"
structopt = "0.3"
tokio = { version = "1", features = ["macros", "rt-multi-thread"] }
wasmtime = "35"
wasmtime-wasi = "35"
