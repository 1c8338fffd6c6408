[package]
name = "irail_journeys"
version = "0.1.0"
edition = "2021"
publish = false

[dependencies]
chrono = "*"
reqwest = { version = "*", default-features = false, features = ["blocking"] }
flate2 = "*"
tar = "*"

[dev-dependencies]
serde_json = "*"
