[package]
name = "gep_toolkit"
version = "0.1.0"
edition = "2021"
publish = false

[dependencies]
rand = "0.7"
serde = { version = "1", features = ["derive"] }
bincode = "1"
simple-error = "*"
