[package]
name = "nino"
version = "0.1.0"
edition = "2021"
publish = false

[dependencies]
rustc_apfloat = "*"
const_soft_float = "*"
