[package]
name = "prettytable"
version = "0.1.0"
edition = "2021"
publish = false

[dependencies]
unicode-width = "=0.1.11"
term = "=0.7.0"
atty = "=0.2.14"
