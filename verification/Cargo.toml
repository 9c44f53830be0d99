[package]
name = "newton_fractal"
version = "0.1.0"
edition = "2021"
publish = false

[dependencies]
rustc_apfloat = "=0.2.3+llvm-462a31f5a5ab"
const_soft_float = "*"
