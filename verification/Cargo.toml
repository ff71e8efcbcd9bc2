[package]
name = "craterun"
version = "0.1.0"
edition = "2021"
publish = false

[dependencies]
rand = "*"
chrono = "*"
anyhow = "*"
libc = "*"
clap = { version = "*", features = ["derive"] }
nix = { version = "*", features = ["mount", "sched", "signal", "process", "fs", "hostname", "user", "term"] }
