[package]
name = "frep"
version = "0.1.0"
edition = "2021"
publish = false

[dependencies]
glob = "0.3"
