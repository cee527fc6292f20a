[package]
name = "docker-clone"
version = "0.1.0"
edition = "2021"
publish = false

[dependencies]
anyhow = "1"
clap = { version = "4", features = ["derive"] }
nix = { version = "0.27", features = ["fs", "hostname", "mount", "process", "sched", "signal", "socket", "user"] }
