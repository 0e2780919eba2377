[package]
name = "rinja_config"
version = "0.1.0"
edition = "2021"
publish = false

[dependencies]
arbitrary = { version = "1", features = ["derive"] }
basic-toml = "0.1"
html-escape = "0.2"
proc-macro2 = "1"
serde = { version = "1", features = ["derive"] }
