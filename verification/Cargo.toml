[package]
name = "headers_ext"
version = "0.1.0"
edition = "2021"
publish = false

[dependencies]
http = "0.1"
headers-core = "0.1"
