[package]
name = "lpn"
version = "0.1.0"
edition = "2021"
publish = false

[dependencies]
fnv = "1"
m4ri-rust = "*"
rand = "0.8"
rand_chacha = "0.3"
rand_xoshiro = "0.6"
rayon = "1"
