[package]
name = "wordle"
version = "0.1.0"
edition = "2021"
publish = false

[dependencies]
rand = "0.9"
crossterm = "0.28"
ratatui = "0.29"
