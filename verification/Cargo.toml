[package]
name = "commit_msg"
version = "0.1.0"
edition = "2021"
publish = false

[dependencies]
regex = "*"
yaml-rust = "*"
exitcode = "*"
