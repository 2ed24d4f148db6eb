[package]
name = "vim_ops"
version = "0.1.0"
edition = "2021"
publish = false

[dependencies]
helix-core = "*"
helix-view = "*"
