[package]
name = "sam2gtf"
version = "0.1.0"
edition = "2021"
publish = false

[dependencies]
clap = "4"
rust-htslib = { version = "*", default-features = false }
