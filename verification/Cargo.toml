[package]
name = "help_text"
version = "0.1.0"
edition = "2021"
publish = false

[dependencies]
crossterm = "=0.25.0"
textwrap = { version = "0.14", default-features = false, features = ["unicode-width"] }
