[package]
name = "ttx_rs"
version = "0.1.0"
edition = "2021"
publish = false

[dependencies]
goblin = "*"
luwen = "*"
thiserror = "*"
tracing = "*"
tempfile = "*"
cargo_metadata = "*"
