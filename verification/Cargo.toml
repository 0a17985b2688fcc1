[package]
name = "record_repo"
version = "0.1.0"
edition = "2021"
publish = false

[dependencies]
prost = "=0.14.4"
