[package]
name = "css_length"
version = "0.1.0"
edition = "2021"
publish = false

[dependencies]
cssparser = "0.28"
