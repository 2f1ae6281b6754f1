[package]
name = "encage_runtime"
version = "0.1.0"
edition = "2021"
publish = false

[dependencies]
nix = { version = "=0.29.0", features = ["mount", "sched", "fs", "user", "hostname", "process", "signal"] }
libc = "=0.2.191"
clap = "=2.34.0"
tempdir = "=0.3.7"
