[package]
name = "ecies_core"
version = "0.1.0"
edition = "2021"
publish = false

[dependencies]
base64 = "=0.23.1"
ecies = { version = "=0.2.11", default-features = false, features = ["pure", "std"] }
