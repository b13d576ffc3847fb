[package]
name = "nvme"
version = "0.1.0"
edition = "2021"

[dependencies]
spin = "0.9"
