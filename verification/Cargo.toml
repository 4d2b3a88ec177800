[package]
name = "imxrt_dcd"
version = "1.1.0"
edition = "2021"
publish = false

[dependencies]
itertools = "0.10"
