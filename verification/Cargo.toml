[package]
name = "cheetah_containers"
version = "0.1.0"
edition = "2021"
publish = false

[dependencies]
aes = "*"
cipher = "*"
sm4 = "*"
