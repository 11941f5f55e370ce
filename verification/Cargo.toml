[package]
name = "synthcore"
version = "0.1.0"
edition = "2021"
publish = false

[dependencies]
cpal = "*"
crossterm = "0.25"
tui = "0.19"
