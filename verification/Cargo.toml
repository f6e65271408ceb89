[package]
name = "cargo_bundle"
version = "0.1.0"
edition = "2021"
publish = false

[dependencies]
strsim = "*"
walkdir = "*"
term = "*"
thiserror = "*"
tar = "*"
flate2 = "*"
md5 = "*"

[dev-dependencies]
ar = "*"
