[package]
name = "svgc"
version = "0.1.0"
edition = "2021"
publish = false

[dependencies]
regex = "*"
flate2 = "*"
chrono = "*"
clap = "*"
which = "*"
sys-locale = "*"
dirs = "*"
directories = "*"
