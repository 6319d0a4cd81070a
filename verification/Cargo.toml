[package]
name = "zlaunch"
version = "0.1.0"
edition = "2021"
publish = false

[dependencies]
urlencoding = "*"
arboard = "*"
image = "*"
tracing = "*"
