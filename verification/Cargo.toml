[package]
name = "typeplay"
version = "0.1.0"
edition = "2021"
publish = false

[dependencies]
rand = "0.8"
syntect = { version = "5", default-features = false, features = ["default-syntaxes", "default-themes", "regex-fancy"] }
