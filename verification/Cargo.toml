[package]
name = "hjpsh"
version = "0.1.0"
edition = "2021"
publish = false

[dependencies]
home = "*"
log = "*"
env_logger = "*"
