[package]
name = "wasm_shim"
version = "0.1.0"
edition = "2021"
publish = false

[dependencies]
cel-interpreter = "0.8"
cel-parser = "0.7"
chrono = { version = "0.4", default-features = false, features = ["alloc", "std"] }
protobuf = "2"
proxy-wasm = "0.2"
serde = { version = "1", features = ["derive"] }
serde_json = "1"
