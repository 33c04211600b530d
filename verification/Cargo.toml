[package]
name = "lucie"
version = "0.1.0"
edition = "2021"
publish = false

[dependencies]
percent-encoding = "2"
rapidhash = "*"
tracing = "0.1"
http = "1"
anyhow = "1"
