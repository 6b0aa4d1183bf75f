[package]
name = "rusted_shut"
version = "0.1.0"
edition = "2021"
publish = false

[dependencies]
argon2 = { version = "0.5", default-features = false, features = ["alloc"] }
chacha20poly1305 = "0.10"
getrandom = "0.2"
rusqlite = { version = "0.31", features = ["bundled"] }
