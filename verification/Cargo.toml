[package]
name = "stoat"
version = "0.1.0"
edition = "2021"
publish = false

[dependencies]
pulldown-cmark = "0.9"
gray_matter = "*"
dateparser = "*"
chrono = "*"
clap = { version = "4", features = ["derive"] }
