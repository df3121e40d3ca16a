[package]
name = "erasure_coding"
version = "0.1.0"
edition = "2021"
publish = false

[dependencies]
reed-solomon-novelpoly = "*"
thiserror = "*"
