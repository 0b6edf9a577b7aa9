[package]
name = "tuner"
version = "0.1.0"
edition = "2021"
publish = false

[dependencies]
regex = "=1.13.1"
html-escape = "=0.2.15"
sha2 = "=0.10.9"
serde = { version = "=1.0.229", features = ["derive"] }
serde_json = "=1.0.154"
url = "=2.5.8"
zip = { version = "*", default-features = false, features = ["deflate"] }
hex = "*"
rand = "*"
chrono = { version = "*", default-features = false, features = ["clock", "std"] }
