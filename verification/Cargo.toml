[package]
name = "forum_api"
version = "0.1.0"
edition = "2021"
publish = false

[dependencies]
bcrypt = "*"
chrono = "*"
hmac = "0.12"
jwt = "0.16"
rand = "0.8"
serde = { version = "*", features = ["derive"] }
serde_json = "*"
sha2 = "0.10"
