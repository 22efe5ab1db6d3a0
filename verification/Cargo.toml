[package]
name = "otpcodes"
version = "0.1.0"
edition = "2021"
publish = false

[dependencies]
ring = "=0.16.20"
url = "=2.5.8"
log = "=0.4.34"
serde = { version = "=1.0.229", features = ["derive"] }
serde_yaml = "=0.9.34"
structopt = "=0.3.26"

[dev-dependencies]
base32 = "=0.4.0"
otplib = "=0.0.2"
