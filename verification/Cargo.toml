[package]
name = "sparkpost"
version = "0.1.0"
edition = "2021"
publish = false

[dependencies]
serde_json = "*"
reqwest = { version = "*", default-features = false, features = ["blocking", "json"] }
chrono = { version = "*", default-features = false, features = ["clock"] }
