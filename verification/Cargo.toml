[package]
name = "xous_tools"
version = "0.1.0"
edition = "2021"
publish = false

[dependencies]
clap = "2"
crc = "1"
xmas-elf = "0.7"
