[package]
name = "tui_tabview"
version = "0.1.0"
edition = "2021"
publish = false

[dependencies]
crossterm = "0.25"
csv = "1.3"
tui = "0.19"
