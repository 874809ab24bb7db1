[package]
name = "io_starttls"
version = "0.1.0"
edition = "2021"
publish = false

[dependencies]
io-stream = { version = "=0.0.1", features = ["std"] }
log = "=0.4.34"
memchr = "=2.8.3"
