[package]
name = "graveyard"
version = "0.1.0"
edition = "2021"
publish = false

[dependencies]
xmltree = "0.10"
csv = "1"
crossterm = "0.27"
ratatui = "0.26"
