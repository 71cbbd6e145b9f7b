[package]
name = "rusty_chip_8"
version = "0.1.0"
edition = "2021"
publish = false

[dependencies]
anyhow = "1"
clap = { version = "4", features = ["derive"] }
minifb = "0.27"
rand = "0.8"
rodio = { version = "0.20", default-features = false }
