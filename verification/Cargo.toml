[package]
name = "pray"
version = "0.1.0"
edition = "2021"
publish = false

[dependencies]
aes-gcm = "*"
pbkdf2 = "*"
sha2 = "*"
hmac = "*"
base64 = "*"
