[package]
name = "dusk"
version = "0.1.0"
edition = "2021"
publish = false

[dependencies]
colored = "2"
anyhow = "1"
clap = "2"
