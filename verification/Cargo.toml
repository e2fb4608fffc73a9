[package]
name = "loudness_meter"
version = "0.1.0"
edition = "2021"
publish = false

[dependencies]
keyed_priority_queue = "0.4"
cpal = "0.13"
console = "0.15"
terminal_size = "0.2"
