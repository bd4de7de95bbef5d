[package]
name = "ex_monty"
version = "0.1.0"
edition = "2021"
publish = false

[dependencies]
monty = "=0.0.23"
monty-types = "=0.0.23"
num-bigint = "=0.5.1"
postcard = { version = "=1.1.3", features = ["alloc"] }
rustler = { version = "=0.39.0", features = ["big_integer"] }
serde = { version = "=1.0.229", features = ["derive"] }
