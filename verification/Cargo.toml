[package]
name = "ejtradermtlib"
version = "0.1.0"
edition = "2021"
publish = false

[dependencies]
zmq = { version = "*", features = ["vendored"] }
serde_json = "*"
