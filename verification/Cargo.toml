[package]
name = "futures_ringbuf"
version = "0.1.0"
edition = "2021"
publish = false

[dependencies]
futures = "0.3"

[dev-dependencies]
futures-test = "0.3"
