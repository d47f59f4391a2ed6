[package]
name = "ring_runtime"
version = "0.1.0"
edition = "2021"
publish = false

[dependencies]
futures = "0.3"
http = "0.2"
httparse = "1"
io-uring = "0.6"
log = "0.4"
thiserror = "1"
tracing = "0.1"
tracing-subscriber = "0.3"
