[package]
name = "amrisk"
version = "0.1.0"
edition = "2021"
publish = false

[dependencies]
indexmap = "=2.14.2"
miette = { version = "=7.6.0", features = ["fancy"] }
thiserror = "=2.0.21"
peg = "0.8"
