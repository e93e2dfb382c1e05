[package]
name = "cot"
version = "0.1.0"
edition = "2021"
publish = false

[dependencies]
anyhow = "*"
clap = "*"
dirs = "*"
flate2 = "*"
log = "*"
log4rs = "*"
semver = "*"
tar = "*"
tempfile = "*"
zip = "*"
