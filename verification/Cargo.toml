[package]
name = "asciigraph"
version = "0.1.0"
edition = "2021"
publish = false

[dependencies]
hmath = "*"
asciibox = "*"
json = "*"
clap = { version = "4", features = ["derive"] }
