[package]
name = "tubex"
version = "0.1.0"
edition = "2021"
publish = false

[dependencies]
shell-words = "1"
urlencoding = "2"
serde = { version = "1", features = ["derive"] }
serde_json = "1"
configparser = "3"
