[package]
name = "filter_chain"
version = "0.1.0"
edition = "2021"
publish = false

[dependencies]
itertools = "=0.8.2"
liquid-error = "0.16"
liquid-interpreter = "0.17"
liquid-value = "0.17"
