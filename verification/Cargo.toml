[package]
name = "muy_zipido"
version = "0.1.0"
edition = "2021"

[dependencies]
flate2 = "1"
reqwest = { version = "0.12", default-features = false, features = ["blocking", "rustls-tls"] }
