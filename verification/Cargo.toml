[package]
name = "rv"
version = "0.1.0"
edition = "2021"
publish = false

[dependencies]
anyhow = "=1.0.104"
bumpalo = "=3.20.3"
fnv = "=1.0.7"
object = "=0.38.1"
stable-vec = "=0.4.3"
wasm-encoder = "=0.263.0"
