[package]
name = "pocketbook-host"
version = "0.1.0"
edition = "2021"
publish = false

[dependencies]
anyhow = "1"
env_logger = "*"
inkview = "*"
log = "0.4"
