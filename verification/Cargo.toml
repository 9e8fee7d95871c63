[package]
name = "tls_scanner"
version = "0.1.0"
edition = "2021"
publish = false

[dependencies]
anyhow = "1"
base64 = "0.22"
console = "*"
openssl = "0.10"
rand = "*"
serde = { version = "1", features = ["derive"] }
serde_json = "1"
tls-parser = "0.12"
ureq = "3"
x25519-dalek = { version = "2", features = ["getrandom"] }
