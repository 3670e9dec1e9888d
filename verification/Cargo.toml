[package]
name = "netcode"
version = "0.1.0"
edition = "2021"
publish = false

[dependencies]
chacha20poly1305 = "0.10"
socket2 = "0.5"
