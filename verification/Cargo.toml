[package]
name = "littlefs2"
version = "0.1.0"
edition = "2021"
publish = false

[dependencies]
embedded-io = "=0.6.1"
embedded-io-async = "=0.6.1"
heapless = "=0.8.0"
heapless-bytes = "=0.5.0"
littlefs2-sys = { version = "=0.4.0", features = ["multiversion", "unstable-littlefs-patched"] }
serde = { version = "=1.0.229", default-features = false }
