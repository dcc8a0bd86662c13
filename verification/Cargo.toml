[package]
name = "stage1"
version = "0.1.0"
edition = "2021"
publish = false

[dependencies]
anyhow = "1"
nix = { version = "0.30", features = ["fs", "mount", "process", "user"] }
