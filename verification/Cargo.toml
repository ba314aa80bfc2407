[package]
name = "mlom"
version = "0.1.0"
edition = "2021"
publish = false

[dependencies]
rustc_apfloat = "=0.2.3"
plotters = "=0.3.7"
