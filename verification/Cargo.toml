[package]
name = "capdrop"
version = "0.1.0"
edition = "2021"
publish = false

[dependencies]
base64 = "0.22"
chrono = "0.4"
dirs = "5"
image = "0.25"
serde = { version = "1", features = ["derive"] }
serde_json = "1"
