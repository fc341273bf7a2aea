[package]
name = "scope_protocol"
version = "0.1.0"
edition = "2021"
publish = false

[dependencies]
csv = "1"
visa-rs = "*"
