[package]
name = "elf2tab"
version = "0.1.0"
edition = "2021"
publish = false

[dependencies]
elf = "=0.0.10"
tar = "0.4"
chrono = "0.4"
structopt = "0.2"
