[package]
name = "sandbench"
version = "0.1.0"
edition = "2021"
publish = false

[dependencies]
wat = "=1.261.0"
wasmparser = "=0.261.0"
wasmtime = "=47.0.4"
anyhow = "=1.0.104"
