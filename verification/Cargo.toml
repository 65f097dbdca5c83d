[package]
name = "bdgt"
version = "0.1.0"
edition = "2021"
publish = false

[dependencies]
anyhow = "1"
chrono = "0.4"
clap = { version = "4", features = ["cargo"] }
dateparser = "0.2"
dialoguer = "0.11"
itertools = "0.11"
minus = { version = "5", features = ["static_output"] }
pinentry = "0.5"
prettytable-rs = "0.10"
secrecy = "0.8"
uuid = "1"
