[package]
name = "cirno"
version = "0.1.0"
edition = "2021"
publish = false

[dependencies]
anyhow = "*"
clap = { version = "*", features = ["derive"] }
crossterm = "*"
include_dir = "*"
logos = "*"
thiserror = "*"
