[package]
name = "kalkoto_lib"
version = "0.1.0"
edition = "2021"
publish = false

[dependencies]
arrow = "*"
arrow-ipc = "*"
clap = { version = "4", features = ["derive"] }
crossterm = "*"
csv = "1"
memmap2 = "*"
pyo3 = "*"
serde = { version = "1", features = ["derive"] }
thiserror = "*"
toml = "*"
