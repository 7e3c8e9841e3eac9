[package]
name = "thrum_engine"
version = "0.1.0"
edition = "2021"
publish = false

[dependencies]
derive_more = { version = "=2.1.1", features = ["display"] }
