[package]
name = "math_expr"
version = "0.1.0"
edition = "2021"
publish = false

[dependencies]
libloading = "*"
rustfmt-wrapper = "*"
