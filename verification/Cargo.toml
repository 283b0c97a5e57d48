[package]
name = "loop_closure"
version = "0.1.0"
edition = "2021"
publish = false

[dependencies]
rustc_apfloat = "=0.2.3"
libm = "=0.2.16"
bytemuck = "*"
