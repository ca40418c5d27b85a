[package]
name = "shared"
version = "0.1.0"
edition = "2021"
publish = false

[dependencies]
argon2 = "=0.5.3"
chacha20poly1305 = "=0.10.1"
hpke = "=0.15.1"
thiserror = "=2.0.21"
wincode = { version = "=0.6.3", features = ["derive"] }
zeroize = "=1.9.1"
