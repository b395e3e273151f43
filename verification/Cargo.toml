[package]
name = "morse_transcoder"
version = "0.1.0"
edition = "2021"
publish = false

[dependencies]
morse-codec = "=0.1.3"
