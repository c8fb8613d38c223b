[package]
name = "js_sandbox"
version = "0.1.0"
edition = "2021"
publish = false

[dependencies]
anyhow = "*"
hyperlight-host = "*"
