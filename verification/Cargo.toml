[package]
name = "qamydata"
version = "0.1.0"
edition = "2021"
publish = false

[dependencies]
horrorshow = "*"
serde = { version = "1", features = ["derive"] }
