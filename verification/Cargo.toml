[package]
name = "cairo_bridge"
version = "0.1.0"
edition = "2021"
publish = false

[dependencies]
crossbeam-channel = "*"
k256 = "*"
num-bigint = "*"
num-integer = "*"
num-traits = "*"
pyo3 = "*"
tracing = "*"
