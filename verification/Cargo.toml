[package]
name = "rust_benchmark"
version = "0.1.0"
edition = "2021"
publish = false

[dependencies]
crossbeam = "*"
rand = "*"

[dev-dependencies]
serde_json = "*"
