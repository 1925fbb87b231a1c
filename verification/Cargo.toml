[package]
name = "onewire_uart"
version = "0.1.0"
edition = "2021"
publish = false

[dev-dependencies]
one-wire-bus = "*"
