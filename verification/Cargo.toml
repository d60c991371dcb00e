[package]
name = "resources"
version = "0.1.0"
edition = "2021"
publish = false

[dependencies]
fxhash = "*"
lock_api = "*"
downcast-rs = "*"
