[package]
name = "rust_hdl"
version = "0.1.0"
edition = "2021"
publish = false

[dependencies]
num-bigint = "*"
num-traits = "*"
array-init = "*"
svg = "*"
substring = "*"
anyhow = "*"
proc-macro2 = "*"
quote = "*"
syn = "*"
