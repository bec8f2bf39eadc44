[package]
name = "rusty_loader"
version = "0.1.0"
edition = "2021"
publish = false

[dependencies]
ihex = "*"
elf_rs = "*"
rusb = "*"
clap = "*"
