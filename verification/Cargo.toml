[package]
name = "matrix_net"
version = "0.1.0"
edition = "2021"
publish = false

[dependencies]
anyhow = "1"
num = "0.4"
rand = "0.8"
rayon = "1"
