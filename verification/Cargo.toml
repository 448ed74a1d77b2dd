[package]
name = "subforge"
version = "0.1.0"
edition = "2021"
publish = false

[dependencies]
base64 = "=0.22.1"
regex = "=1.13.1"
serde = { version = "=1.0.229", features = ["derive"] }
serde_json = "=1.0.154"
serde_yaml = "=0.9.34"
flate2 = "=1.1.10"
brotli = "=9.1.1"
time = "=0.3.55"
url = "=2.5.8"
percent-encoding = "=2.3.2"
getrandom = "=0.3.4"
tracing = "=0.1.44"
