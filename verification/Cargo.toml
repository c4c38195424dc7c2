[package]
name = "console_markdown"
version = "0.1.0"
edition = "2021"
publish = false

[dependencies]
markdown = "=1.0.0"
syntect = "=5.3.0"
