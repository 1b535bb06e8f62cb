[package]
name = "nono_sessions"
version = "0.1.0"
edition = "2021"
publish = false

[dependencies]
chrono = "0.4"
dirs = "*"
nix = "*"
tracing = "0.1"
walkdir = "2"
