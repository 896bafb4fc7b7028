[package]
name = "atuin"
version = "0.1.0"
edition = "2021"
publish = false

[dependencies]
eyre = "0.6"
libc = "0.2"
ratatui = { version = "0.29", default-features = false, features = ["crossterm"] }
tokio = { version = "1", features = ["rt-multi-thread", "sync", "time"] }
tracing = "0.1"
