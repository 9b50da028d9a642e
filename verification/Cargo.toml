[package]
name = "mio_misc"
version = "0.1.0"
edition = "2021"
publish = false

[dependencies]
crossbeam = "0.8"
crossbeam-queue = "0.3"
mio = { version = "1", features = ["os-poll", "net"] }

[dev-dependencies]
rand = "0.9"
