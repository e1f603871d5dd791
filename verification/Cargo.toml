[package]
name = "droidfoodattestation"
version = "0.1.0"
edition = "2021"
publish = false

[dependencies]
android_logger = "*"
log = "0.4"
openssl = "0.10"
protobuf = "3"
reqwest = { version = "0.12", default-features = false, features = ["blocking", "http2", "rustls-tls"] }
uuid = { version = "1", features = ["v4"] }
