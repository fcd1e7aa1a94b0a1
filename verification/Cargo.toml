[package]
name = "procr_ansi_term"
version = "0.1.0"
edition = "2021"
publish = false

[dependencies]
itertools = "*"
