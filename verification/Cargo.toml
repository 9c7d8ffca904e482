[package]
name = "termlink"
version = "0.1.0"
edition = "2021"
publish = false

[dependencies]
fastrand = "*"
ratatui = "*"
crossterm = "*"
color-eyre = "*"
