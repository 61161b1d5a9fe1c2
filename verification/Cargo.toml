[package]
name = "eladmin_rs"
version = "0.1.0"
edition = "2021"
publish = false

[dependencies]
anyhow = "1"
base64 = "0.22"
bcrypt = "0.15"
captcha-rs = "0.2"
chrono = "0.4"
jsonwebtoken = "9"
rand = "0.8"
rsa = "0.9"
serde = { version = "1", features = ["derive"] }
serde_json = "1"
thiserror = "1"
uuid = { version = "1", features = ["v4"] }
