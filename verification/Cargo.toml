[package]
name = "cognito_core"
version = "0.1.0"
edition = "2021"
publish = false

[dependencies]
uuid = { version = "=1.27.0", features = ["v4"] }
dirs = "=7.0.0"
walkdir = "=2.5.0"
nucleo = "=0.5.0"
wasmtime = "=46.0.3"
wasmtime-wasi = "=46.0.3"
