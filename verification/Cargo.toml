[package]
name = "ralph"
version = "0.1.0"
edition = "2021"
publish = false

[dependencies]
clap = { version = "*", features = ["derive"] }
color-eyre = "*"
eyre = "*"
tokio = { version = "*", features = ["process", "io-util", "macros", "rt-multi-thread", "time"] }
