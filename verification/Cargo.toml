[package]
name = "pki_client"
version = "0.1.0"
edition = "2021"
publish = false

[dependencies]
x25519-dalek-ng = "=1.1.1"
socks = "=0.3.4"
retry = "=2.2.0"
