[package]
name = "qr_cam"
version = "0.1.0"
edition = "2021"
publish = false

[dependencies]
image = { version = "=0.25.10", default-features = false }
zxing-cpp = { version = "=0.5.3", features = ["image"] }
x-media = "=0.1.3"
smallvec = "=1.16.4"
av-foundation = "0.5"
core-foundation = "=0.10.1"
core-media = "0.5"
core-video = "0.4"
dispatch2 = "0.1"
objc2 = "0.5"
objc2-foundation = "0.2"
