[package]
name = "rusty_js_core"
version = "0.1.0"
edition = "2021"
publish = false

[dependencies]
regress = "0.4"
num-bigint = "0.4"
num-traits = "0.2"
