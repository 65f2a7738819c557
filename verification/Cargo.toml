[package]
name = "slsswag"
version = "0.1.0"
edition = "2021"
publish = false

[dependencies]
regex = "=1.13.1"
rust-embed = { version = "=8.13.0", features = ["interpolate-folder-path"] }
serde_yaml = "=0.8.26"
