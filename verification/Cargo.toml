[package]
name = "isahc_agent"
version = "0.1.0"
edition = "2021"
publish = false

[dependencies]
crossbeam-channel = "0.5"
crossbeam-utils = "0.8"
curl = { version = "0.4", default-features = false }
curl-sys = { version = "0.4", default-features = false }
futures-util = "0.3"
polling = "2"
slab = "0.4"
tracing = "0.1"
