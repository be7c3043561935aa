[package]
name = "cowtx"
version = "0.1.0"
edition = "2021"
publish = false

[dependencies]
linked-hash-map = "0.5"
