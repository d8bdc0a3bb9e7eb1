[package]
name = "tun_offload"
version = "0.1.0"
edition = "2021"
publish = false

[dependencies]
bytes = "1"
etherparse = "*"
libc = "0.2"
