[package]
name = "perf_zoo"
version = "0.1.0"
edition = "2021"
publish = false

[dependencies]
clap = { version = "3", features = ["derive"] }
structopt = "0.3"
