[package]
name = "a16"
version = "0.1.0"
edition = "2021"
publish = false

[dependencies]
indexmap = "2"
serde_json = "1"
rand = "0.8"
smol_str = "0.2"
