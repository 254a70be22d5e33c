[package]
name = "nixfmt_rules"
version = "0.1.0"
edition = "2021"
publish = false

[dependencies]
rnix = "=0.14.0"
rowan = "=0.16.1"
