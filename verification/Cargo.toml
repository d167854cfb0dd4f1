[package]
name = "utensil_bs"
version = "0.1.0"
edition = "2021"
publish = false

[dependencies]
coreshift-core = "*"
