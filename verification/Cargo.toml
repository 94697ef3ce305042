[package]
name = "fs_helper"
version = "0.1.0"
edition = "2021"
publish = false

[dependencies]
clap = { version = "4", features = ["derive"] }
colored = "2"
indicatif = "0.17"
walkdir = "2"
