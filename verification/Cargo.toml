[package]
name = "ants"
version = "2.0.0"
edition = "2021"
publish = false

[dependencies]
chrono = "0.4"
