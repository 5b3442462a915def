[package]
name = "spsc_bip_buffer"
version = "0.2.1"
edition = "2021"
publish = false

[dependencies]
cache_line_size = "1"
