[package]
name = "whiskey"
version = "0.1.0"
edition = "2021"
publish = false

[dependencies]
serde_json = "1"
sysinfo = "0.29"
crossterm = "0.27"
lazy_static = "1"
pyo3 = "0.20"
