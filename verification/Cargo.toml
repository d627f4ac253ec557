[package]
name = "accountant"
version = "0.1.0"
edition = "2021"
publish = false

[dependencies]
dashmap = "*"
csv = "*"
clap = "*"
log = "*"
fern = "*"
chrono = "*"
