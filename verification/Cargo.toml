[package]
name = "gitu"
version = "0.1.0"
edition = "2021"
publish = false

[dependencies]
clap = { version = "4", features = ["derive"] }
crossterm = "0.27"
derive_more = "0.99"
lazy_static = "1"
ratatui = "0.26"
