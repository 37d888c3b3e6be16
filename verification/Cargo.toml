[package]
name = "softfloat_wrapper"
version = "0.1.0"
edition = "2021"
publish = false

[dependencies]
softfloat-sys-riscv = "*"

[dev-dependencies]
simple-soft-float = { version = "*", default-features = false }
