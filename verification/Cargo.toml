[package]
name = "expects"
version = "0.1.0"
edition = "2021"
publish = false

[dependencies]
colored = "*"
serde_json = { version = "*", features = ["preserve_order"] }
serde_yaml = "*"
