[package]
name = "oxd2"
version = "0.1.0"
edition = "2021"
publish = false

[dependencies]
rand = "*"
libc = "*"
termios = "*"
memmap = "*"
getopts = "*"
