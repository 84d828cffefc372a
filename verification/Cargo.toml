[package]
name = "granulator"
version = "0.1.0"
edition = "2021"
publish = false

[dependencies]
heapless = "0.7"
micromath = "2"
oorandom = "11"
