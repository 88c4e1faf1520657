[package]
name = "html_minifier"
version = "0.1.0"
edition = "2021"
publish = false

[dependencies]
memchr = "2"
phf = { version = "0.11", features = ["macros"] }
