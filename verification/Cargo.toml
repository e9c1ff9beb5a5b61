[package]
name = "thinbox"
version = "0.1.0"
edition = "2021"
publish = false

[dependencies]
serde = "1.0"
futures = "0.3"
