[package]
name = "taskbook"
version = "0.1.0"
edition = "2021"
publish = false

[dependencies]
json = "0.12"
dialoguer = { version = "0.11", features = ["fuzzy-select"] }
