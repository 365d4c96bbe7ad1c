[package]
name = "aliddns"
version = "0.1.0"
edition = "2021"
publish = false

[dependencies]
anyhow = "*"
base64 = "*"
chrono = "*"
curl = "*"
hmac-sha1 = "*"
json = "*"
libc = "*"
log = "*"
serde = { version = "*", features = ["derive"] }
toml = "*"
urlencoding = "*"
