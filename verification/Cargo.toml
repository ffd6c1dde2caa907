[package]
name = "one2html"
version = "0.1.0"
edition = "2021"
publish = false

[dependencies]
finl_unicode = "*"
unicode-blocks = "*"
onenote_parser = "*"
