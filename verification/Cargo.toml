[package]
name = "polars_regex"
version = "0.1.0"
edition = "2021"
publish = false

[dependencies]
regex = "1"
fancy-regex = "*"
serde = { version = "1", features = ["derive"] }
pyo3 = "*"
