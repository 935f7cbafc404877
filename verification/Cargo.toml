[package]
name = "lipgloss"
version = "0.1.0"
edition = "2021"
publish = false

[dependencies]
palette = "0.7"
strip-ansi-escapes = "0.2"
unicode-width = "0.2"
