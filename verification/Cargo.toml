[package]
name = "docks"
version = "0.1.0"
edition = "2021"
publish = false

[dependencies]
toml = "*"
chrono = "*"
inquire = "*"
is_executable = "*"
ignore = "*"
