[package]
name = "sbf"
version = "0.1.0"
edition = "2021"
publish = false

[dependencies]
md5 = "0.7"
md4 = "0.10"
rand = "0.8"
itertools = "*"
serde = { version = "*", features = ["derive"] }
serde_json = "*"
