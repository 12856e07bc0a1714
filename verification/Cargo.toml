[package]
name = "thmbs"
version = "0.1.0"
edition = "2021"
publish = false

[dependencies]
base64 = "0.22"
chrono = "0.4"
clap = { version = "4", features = ["derive"] }
imagesize = "0.13"
libc = "0.2"
