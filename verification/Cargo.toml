[package]
name = "sentry"
version = "0.1.0"
edition = "2021"
publish = false

[dependencies]
crc = "1"
rand = "0.8"
toml = "0.5"
