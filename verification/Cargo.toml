[package]
name = "input_validation"
version = "0.1.0"
edition = "2021"
publish = false

[dependencies]
infer = "=0.7.0"
lazy_static = "=1.5.1"
read_input = "=0.8.6"
uuid = { version = "=1.29.0", features = ["v5"] }

[dev-dependencies]
regex = "=1.13.1"
