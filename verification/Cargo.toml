[package]
name = "cloudreve_sync"
version = "0.1.0"
edition = "2021"
publish = false

[dependencies]
aes = "0.8"
ctr = "0.9"
base64 = "0.22"
