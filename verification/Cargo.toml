[package]
name = "calr"
version = "0.1.0"
edition = "2021"
publish = false

[dependencies]
time = { version = "0.3", features = ["local-offset"] }

[dev-dependencies]
chrono = { version = "0.4", default-features = false }
