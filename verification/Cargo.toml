[package]
name = "brocode_core_logic"
version = "0.1.0"
edition = "2021"
publish = false

[dependencies]
serde_json = "1"
rmcp = { version = "*", default-features = false }
dirs = "*"
