[package]
name = "chessagon"
version = "0.1.0"
edition = "2021"
publish = false

[dependencies]
gcd = "2"
hext-boards = "*"
jiff = "*"
thiserror = "*"
tracing = "*"
