[package]
name = "mobius_device_lab"
version = "0.1.0"
edition = "2021"
publish = false

[dependencies]
base64 = "=0.22.1"
getrandom = "=0.2.17"
serde = { version = "1", features = ["derive"] }
serde_json = "1"
md-5 = "=0.10.6"
plist = "1"
zip = { version = "2", default-features = false, features = ["deflate"] }
if-addrs = "=0.13.4"
zeroize = { version = "1", features = ["derive"] }
