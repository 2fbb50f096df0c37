[package]
name = "server_keeper"
version = "0.1.0"
edition = "2021"
publish = false

[dependencies]
serde_json = "1"
chrono = "0.4"
zip = "0.6"
