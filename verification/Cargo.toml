[package]
name = "lapiz"
version = "0.1.0"
edition = "2021"
publish = false

[dependencies]
uuid = "=1.29.0"
xxhash-rust = { version = "=0.8.19", features = ["xxh3"] }
serde = { version = "=1.0.229", features = ["derive"] }
toml = "=0.8.23"
indexmap = "=2.14.2"
path-clean = "1"
