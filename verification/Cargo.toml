[package]
name = "notes"
version = "0.1.0"
edition = "2021"
publish = false

[dependencies]
regex = "1"
colored = "2"
clap = "2"
walkdir = "2"
dirs = "*"
