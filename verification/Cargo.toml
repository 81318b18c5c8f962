[package]
name = "ktx2_encode"
version = "0.1.0"
edition = "2021"
publish = false

[dependencies]
ktx2 = "*"
zstd = "*"
