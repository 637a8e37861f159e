[package]
name = "auto-swap"
version = "0.1.0"
edition = "2021"
publish = false

[dependencies]
anchor-lang = "*"
spl-token = { version = "*", features = ["no-entrypoint"] }
