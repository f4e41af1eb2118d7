[package]
name = "aws_sign_v4"
version = "0.1.0"
edition = "2021"
publish = false

[dependencies]
chrono = "0.4"
hex = "0.4"
http = "*"
ring = "*"
sha256 = "*"
url = "2"
