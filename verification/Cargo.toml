[package]
name = "fmp4_mux"
version = "0.1.0"
edition = "2021"
publish = false

[dependencies]
access-unit = "*"
bytes = "*"
mse_fmp4 = "*"
