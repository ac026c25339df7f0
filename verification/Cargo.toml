[package]
name = "robo_arc"
version = "0.1.0"
edition = "2021"
publish = false

[dependencies]
serde_json = "*"
toml = "*"
num-format = "*"
loc = "*"
walkdir = "*"
