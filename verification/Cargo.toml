[package]
name = "qrgen"
version = "0.1.0"
edition = "2021"
publish = false

[dependencies]
qrcode = "0.14"
image = { version = "0.25", default-features = false, features = ["png"] }
base64 = "0.22"
serde = { version = "1", features = ["derive"] }
serde_json = "1"
worker = "*"
console_error_panic_hook = "0.1"
