[package]
name = "bundle_state"
version = "0.1.0"
edition = "2021"
publish = false

[dependencies]
revm = { version = "14", default-features = false, features = ["std"] }
