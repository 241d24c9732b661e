[package]
name = "detect_targets"
version = "0.1.0"
edition = "2021"
publish = false

[dependencies]
guess_host_triple = "*"
tokio = { version = "*", default-features = false, features = ["process", "rt", "macros"] }
