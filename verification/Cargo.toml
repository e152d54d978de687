[package]
name = "libconsensus"
version = "0.1.0"
edition = "2021"
publish = false

[dependencies]
hex = "=0.4.3"
serde = "=1.0.229"
serde_derive = "=1.0.229"
failure = "=0.1.8"
futures = "=0.3.34"
