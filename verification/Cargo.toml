[package]
name = "actix_lua"
version = "0.1.0"
edition = "2021"
publish = false

[dependencies]
uuid = { version = "*", features = ["v4"] }
rlua = "*"
actix = "*"
