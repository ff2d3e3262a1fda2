[package]
name = "tbr"
version = "0.1.0"
edition = "2021"
publish = false

[dependencies]
brotli = "*"
clap = { version = "*", features = ["derive"] }
glob = "*"
sysexits = "*"
tar = "*"
tempfile = "*"
