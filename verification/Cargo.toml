[package]
name = "asset_server"
version = "0.1.0"
edition = "2021"
publish = false

[dependencies]
env_logger = "*"
log = "0.4"
may = "*"
may_minihttp = "*"
mime_guess = "2"
rust-embed = "8"
