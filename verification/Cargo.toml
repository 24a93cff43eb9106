[package]
name = "smb3_client"
version = "0.1.0"
edition = "2021"
publish = false

[dependencies]
aes = "=0.8.4"
cmac = "0.7"
hmac = "=0.12.1"
rand = "=0.8.8"
sha2 = "=0.10.9"
sspi-bobbobbio = "=0.10.1"
tokio = { version = "=1.53.2", features = ["io-util", "net", "rt-multi-thread", "macros"] }
