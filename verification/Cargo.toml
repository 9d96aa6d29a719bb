[package]
name = "brane_host"
version = "0.1.0"
edition = "2021"
publish = false

[dependencies]
wasmtime = "=36.0.19"
wasmtime-wasi = "=36.0.19"
memoffset = "=0.9.1"
