[package]
name = "lochx"
version = "0.1.0"
edition = "2021"
publish = false

[dependencies]
small-map = "*"
thiserror = "*"
anyhow = "*"
argh = "*"
liso = "*"
miette = { version = "*", features = ["fancy"] }
