[package]
name = "dnd_scheduler"
version = "0.1.0"
edition = "2021"
publish = false

[dependencies]
redb = "*"
uuid = { version = "*", features = ["v4"] }
chrono = "*"
zxcvbn = "*"
