[package]
name = "ft_ddns"
version = "0.1.0"
edition = "2021"
publish = false

[dependencies]
argon2 = "=0.5.3"
base64 = "=0.22.1"
chrono = "=0.4.45"
openssl = "=0.10.81"
rand = "=0.8.8"
aws-config = "=1.12.0"
aws-sdk-route53 = "=1.127.0"
tokio = { version = "1", features = ["rt-multi-thread", "macros"] }
