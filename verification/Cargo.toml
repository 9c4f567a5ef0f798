[package]
name = "rmatrix"
version = "0.1.0"
edition = "2021"
publish = false

[dependencies]
crossterm = "0.19"
notify = "=5.0.0-pre.6"
rand = "0.8"
