[package]
name = "smet"
version = "0.1.0"
edition = "2021"
publish = false

[dependencies]
aes-gcm = "*"
argon2 = "*"
rand = "*"
zeroize = "*"
clap = { version = "*", features = ["derive"] }
