[package]
name = "smol_concurrency_tools"
version = "0.1.0"
edition = "2021"
publish = false

[dependencies]
smol = "*"
