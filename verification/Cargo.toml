[package]
name = "rustless"
version = "0.1.0"
edition = "2021"
publish = false

[dependencies]
regex = "1"
crossterm = "0.25"
tui = "0.19"
term_size = "0.3"
