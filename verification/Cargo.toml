[package]
name = "git-drive"
version = "0.1.0"
edition = "2021"
publish = false

[dependencies]
caseless = "0.2"
clap = "4"
co-authors = "*"
console = "0.15"
dialoguer = "0.10"
directories = "*"
eyre = "0.6"
once_cell = "1"
unicode-normalization = "0.1"
