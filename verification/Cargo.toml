[package]
name = "rustime"
version = "0.1.0"
edition = "2021"
publish = false

[dependencies]
crossbeam-deque = "0.8"
mio = { version = "1", features = ["os-poll", "net"] }
