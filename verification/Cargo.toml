[package]
name = "try-ui"
version = "0.1.0"
edition = "2021"
publish = false

[dependencies]
async-std = "1.13"
core-foundation = "0.10"
core-video = "0.4"
image = { version = "0.25", default-features = false, features = ["png"] }
objc = "0.2"
serde_bytes = "0.11"
smallvec = "1"
zbus = "5"
