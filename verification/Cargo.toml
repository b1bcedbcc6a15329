[package]
name = "meson_fmt"
version = "0.1.0"
edition = "2021"
publish = false

[dependencies]
dprint-core = { version = "=0.70.0", features = ["wasm"] }
serde = { version = "=1.0.229", features = ["derive"] }
