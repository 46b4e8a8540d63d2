[package]
name = "nano"
version = "0.1.0"
edition = "2021"
publish = false

[dependencies]
unicode-width = "=0.2.3"
sha2 = "=0.10.9"
regex = "1"
libc = "0.2"
