[package]
name = "netfp"
version = "0.1.0"
edition = "2021"
publish = false

[dependencies]
md-5 = "0.10"
sha2 = "0.10"
rand = "0.9"
