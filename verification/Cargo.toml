[package]
name = "rtwins"
version = "0.5.1"
edition = "2021"
publish = false

[dependencies]
unicode-width = "=0.1.11"
lazy_static = "=1.5.1"
libc = "=0.2.191"
termios = "=0.3.3"
