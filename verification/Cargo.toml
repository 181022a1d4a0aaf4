[package]
name = "reviews_api"
version = "0.1.0"
edition = "2021"
publish = false

[dependencies]
chrono = "=0.4.45"
jsonwebtoken = "=8.3.0"
redis = "=0.27.6"
rocket = { version = "=0.5.2", features = ["json"] }
serde = { version = "=1.0.229", features = ["derive"] }
validator = { version = "=0.16.1", features = ["derive"] }
