[package]
name = "secure_core"
version = "0.1.0"
edition = "2021"
publish = false

[dependencies]
aes-gcm = "0.10"
chacha20poly1305 = "0.10"
hkdf = "0.12"
hmac = "0.12"
libc = "0.2"
pqc_kyber = { version = "0.6", features = ["kyber1024"] }
rand = "0.8"
sha2 = "0.10"
zeroize = "1"
