[package]
name = "sval_buffer"
version = "0.1.0"
edition = "2021"
publish = false

[dependencies]
sval = { version = "2", features = ["std"] }
