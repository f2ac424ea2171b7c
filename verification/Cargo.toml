[package]
name = "mockgen"
version = "0.1.0"
edition = "2021"
publish = false

[dev-dependencies]
proc-macro2 = "1"
