[package]
name = "cosmo"
version = "0.1.0"
edition = "2021"
publish = false

[dependencies]
clarabel = "*"
thiserror = "*"
pyo3 = "*"
