[package]
name = "static_preprocessing"
version = "0.1.0"
edition = "2021"
publish = false

[dependencies]
blake3 = "*"
lightningcss = "1.0.0-alpha.72"
serde_json = "*"
