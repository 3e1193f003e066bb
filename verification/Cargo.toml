[package]
name = "py_hotstart"
version = "0.1.0"
edition = "2021"
publish = false

[dependencies]
nix = { version = "=0.29.0", features = ["fs", "ioctl", "poll", "process", "signal", "socket", "term", "uio"] }
signal-hook = "=0.4.5"
clap = "=4.6.7"
anyhow = "=1.0.104"
