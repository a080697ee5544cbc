[package]
name = "tidy"
version = "0.1.0"
edition = "2021"
publish = false

[dependencies]
convert_case = "*"
ansi_term = "*"
clap = "*"
log = "*"
walkdir = "*"
