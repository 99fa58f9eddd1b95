[package]
name = "intershare_sdk"
version = "0.1.0"
edition = "2021"
publish = false

[dependencies]
uuid = { version = "*", features = ["v4"] }
local-ip-address = "*"
tokio = { version = "*", features = ["rt", "sync"] }
tempfile = "*"
dirs = "*"
