[package]
name = "shell_core"
version = "0.1.0"
edition = "2021"
publish = false

[dependencies]
chrono = "0.4"
console = "0.15"
ctrlc = "3"
indicatif = "0.17"
lazy_static = "1"
shellwords = "1"
walkdir = "2"
