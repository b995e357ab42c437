[package]
name = "fish_shoal"
version = "0.1.0"
edition = "2021"
publish = false

[dependencies]
rand = "0.9"
reqwest = { version = "0.12", default-features = false, features = ["blocking"] }
