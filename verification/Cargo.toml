[package]
name = "hacker"
version = "0.1.0"
edition = "2021"
publish = false

[dependencies]
ropey = { version = "*", default-features = false }
ratatui = "*"
crossterm = "*"
color-eyre = "*"
rand = "*"
scopeguard = "*"
spin_sleep = "*"
thiserror = "*"
