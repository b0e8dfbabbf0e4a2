[package]
name = "subgrep"
version = "0.1.0"
edition = "2021"
publish = false

[dependencies]
regex = "1"
subparse = "*"
clap = "2"
ansi_term = "0.12"
srtparse = "*"
