[package]
name = "sennaar"
version = "0.1.0"
edition = "2021"
publish = false

[dependencies]
serde = { version = "=1.0.229", features = ["derive"] }
serde_json = "=1.0.151"
schemars = "=1.2.2"
clang-sys = { version = "=1.9.1", features = ["runtime", "clang_17_0"] }
