[package]
name = "arrange_ftdi"
version = "0.1.0"
edition = "2021"
publish = false

[dependencies]
clap = { version = "4", features = ["derive"] }
env_logger = "0.11"
libftdi1-sys = "*"
log = "0.4"
