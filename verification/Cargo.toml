[package]
name = "cantina_core"
version = "0.1.0"
edition = "2021"
publish = false

[dependencies]
crossbeam = "*"
uuid = { version = "*", features = ["v4"] }
