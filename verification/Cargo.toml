[package]
name = "fd_queue"
version = "1.1.1"
edition = "2021"
publish = false

[dependencies]
libc = "=0.2.191"
tracing = "=0.1.44"
mio = { version = "=0.8.11", features = ["os-poll", "net"] }
tokio = { version = "=1.54.1", features = ["net"] }
futures-core = "=0.3.34"
futures-util = "=0.3.34"
pin-project = "=1.1.13"
