[package]
name = "netpack"
version = "0.1.0"
edition = "2021"
publish = false

[dependencies]
aes-gcm = "*"
sha2 = "*"
serde = { version = "*", features = ["derive"] }
rsa_ext = "*"
