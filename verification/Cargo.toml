[package]
name = "flat_json_map"
version = "0.1.0"
edition = "2021"
publish = false

[dependencies]
serde_json = "1"
