[package]
name = "unbox"
version = "0.1.0"
edition = "2021"
publish = false

[dependencies]
users = "*"
clap = { version = "*", features = ["derive"] }
color-eyre = "*"
indicatif = "*"
nix = { version = "*", features = ["sched", "user"] }
tar = "*"
