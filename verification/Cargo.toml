[package]
name = "read_dedup"
version = "0.1.0"
edition = "2021"
publish = false

[dependencies]
bio = "*"
clap = "2"
csv = "1"
flate2 = "1"
simple-error = "*"

[dev-dependencies]
rand = "0.7"
