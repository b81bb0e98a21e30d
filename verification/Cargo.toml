[package]
name = "screenie_server"
version = "0.1.0"
edition = "2021"
publish = false

[dependencies]
rand = "*"
tiny_http = "*"
ascii = "*"
