[package]
name = "mdblog"
version = "0.1.0"
edition = "2021"
publish = false

[dependencies]
comrak = { version = "*", default-features = false }
yaml-front-matter = "0.1"
