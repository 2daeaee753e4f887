[package]
name = "user_entry"
version = "0.1.0"
edition = "2021"
publish = false

[dependencies]
chrono = "*"
uuid = { version = "*", features = ["v4"] }
hyper = { version = "0.14", features = ["full"] }

[dev-dependencies]
serde_json = "*"
