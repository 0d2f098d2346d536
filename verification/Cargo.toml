[package]
name = "ibc_port"
version = "0.1.0"
edition = "2021"
publish = false

[dependencies]
ibc = "*"
thiserror = "1"
