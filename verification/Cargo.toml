[package]
name = "timeknight"
version = "0.1.0"
edition = "2021"
publish = false

[dependencies]
chrono = "0.4"
clap = "4"
console = "0.15"
dirs = "4"
itertools = "0.10"
