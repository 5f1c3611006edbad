[package]
name = "cs2kz-api"
version = "0.0.0"
edition = "2021"
publish = false

[dependencies]
semver = "1"
serde = { version = "1", features = ["derive"] }
