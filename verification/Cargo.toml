[package]
name = "sqparse"
version = "0.1.0"
edition = "2021"
publish = false

[dependencies]
lexical = { version = "6", features = ["power-of-two"] }
owo-colors = "3"
yansi = "0.5"
lazy_static = "1"
