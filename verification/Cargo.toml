[package]
name = "openvasd"
version = "0.1.0"
edition = "2021"
publish = false

[dependencies]
chacha20poly1305 = "*"
getrandom = "*"
serde = { version = "1", features = ["derive"] }
serde_json = "1"
