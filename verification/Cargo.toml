[package]
name = "icy_term"
version = "0.1.0"
edition = "2021"
publish = false

[dependencies]
anyhow = "=1.0.104"
web-time = "=1.1.0"
log = "=0.4.35"
toml = "=0.8.23"
directories = "=5.0.1"
rodio = "=0.17.3"
gabi = "*"
