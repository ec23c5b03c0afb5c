[package]
name = "oli_core"
version = "0.1.0"
edition = "2021"
publish = false

[dependencies]
regex = "*"
glob = "*"
serde_json = "*"
uuid = { version = "*", features = ["v4"] }
rand = "0.8"
