[package]
name = "openapi_spec"
version = "0.1.0"
edition = "2021"
publish = false

[dependencies]
serde_json = "1"
serde_yaml = "0.9"
thiserror = "1"
