[package]
name = "tectonic"
version = "0.1.0"
edition = "2021"
publish = false

[dependencies]
app_dirs2 = "2"
