[package]
name = "zephyr_bot"
version = "0.1.0"
edition = "2021"
publish = false

[dependencies]
rand = "0.4"
regex = "=0.2.6"
tempfile = "3"
