[package]
name = "samp_cef"
version = "0.1.0"
edition = "2021"
publish = false

[dependencies]
url = "=2.5.8"
percent-encoding = "=2.3.2"
encoding_rs = "=0.8.44"
log = "=0.4.35"
simplelog = "=0.12.2"
serde = { version = "=1.0.229", features = ["derive"] }
serde_json = "=1.0.154"
crossbeam-channel = "=0.5.17"
parking_lot = "=0.12.5"
libloading = "=0.8.9"
region = "=3.0.2"
alto = "3"
