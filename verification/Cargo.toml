[package]
name = "mtaalink"
version = "0.1.0"
edition = "2021"
publish = false

[dependencies]
argon2 = "=0.5.3"
password-hash = { version = "=0.5.0", features = ["getrandom"] }
jsonwebtoken = "=9.3.1"
serde_json = "1"
uuid = { version = "1", features = ["v4"] }
chrono = "=0.4.45"
bigdecimal = "=0.4.11"
serde = { version = "1", features = ["derive"] }
