[package]
name = "elf_audit"
version = "0.1.0"
edition = "2021"

[dependencies]
clap = { version = "*", features = ["derive"] }
color-eyre = "*"
rayon = "*"
