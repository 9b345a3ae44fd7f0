[package]
name = "tinycrypt"
version = "0.1.0"
edition = "2021"
publish = false

[dependencies]
aes-gcm-siv = "0.11"
rust-argon2 = "*"
serde = { version = "1", features = ["derive"] }

[dev-dependencies]
bincode = "1"
