[package]
name = "tmod_codec"
version = "0.1.0"
edition = "2021"
publish = false

[dependencies]
png = "*"
fdeflate = "*"
libc = "*"
clap = { version = "*", features = ["derive"] }
