[package]
name = "dnsget"
version = "0.1.0"
edition = "2021"
publish = false

[dependencies]
anyhow = "1"
ascii = "1"
bitvec = "1"
pico-args = "0.5"
rand = "0.8"
