[package]
name = "awesome_rs"
version = "0.1.0"
edition = "2021"
publish = false

[dependencies]
accessibility = "*"
accessibility-sys = "*"
anyhow = "1"
cocoa = "0.25"
core-foundation = "0.9"
core-graphics = "0.23"
objc2 = "0.5"
objc2-app-kit = "0.2"
objc2-foundation = "0.2"
uuid = { version = "1", features = ["v4"] }
