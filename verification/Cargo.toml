[package]
name = "passcore"
version = "0.1.0"
edition = "2021"
publish = false

[dependencies]
passwords = { version = "=3.1.18", features = ["common-password"] }
zxcvbn = "=3.1.1"
rand = "=0.10.3"
sha1 = "=0.11.0"
sha2 = "=0.11.0"
md5 = "=0.8.1"
bcrypt = "=0.19.3"
base64 = "=0.23.1"
hex = "=0.4.3"
serde = { version = "=1.0.229", features = ["derive"] }
serde_json = "=1.0.151"
