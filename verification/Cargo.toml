[package]
name = "suji_runtime"
version = "0.1.0"
edition = "2021"
publish = false

[dependencies]
regex = "1"
rand = "0.9"
once_cell = "1"
thiserror = "2"
