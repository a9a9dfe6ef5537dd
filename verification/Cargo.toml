[package]
name = "miel"
version = "0.1.0"
edition = "2021"
publish = false

[dependencies]
lasso = "*"
num-bigint = "*"
colored = "*"
strsim = "*"
