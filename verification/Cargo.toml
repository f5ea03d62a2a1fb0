[package]
name = "star"
version = "0.1.0"
edition = "2021"

[dependencies]
bzip2 = "*"
clap = "*"
dialoguer = "*"
flate2 = "*"
rust-lzma = "*"
tar = "*"
