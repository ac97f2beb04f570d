[package]
name = "dmarc_parser"
version = "0.1.0"
edition = "2021"
publish = false

[dependencies]
mailparse = "*"
zip = "*"
flate2 = "*"
xml-rs = "*"

[dev-dependencies]
base64 = "*"
chrono = "*"
