[package]
name = "xqr_core"
version = "0.1.0"
edition = "2021"
publish = false

[dependencies]
base64 = "=0.21.7"
clap = "=4.6.7"
image = "=0.25.10"
jwtk = "=0.2.4"
openssl = "=0.10.81"
qr2term = "=0.3.3"
qrcode = "=0.14.1"
reqwest = { version = "=0.11.27", features = ["blocking"] }
xqr = "=0.4.0"

[dev-dependencies]
serde_json = "=1.0.154"
