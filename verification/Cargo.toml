[package]
name = "megaton"
version = "0.1.0"
edition = "2021"
publish = false

[dependencies]
rustc-hash = "2"
regex = "1"
num_cpus = "1"
pathdiff = "0.2"
serde = { version = "1", features = ["derive"] }
serde_json = "1"
serde_yaml_ng = "*"
toml = "*"
clap = { version = "4", features = ["derive"] }
filetime = "0.2"
walkdir = "2"
which = "*"
dunce = "1"
ninja-writer = "*"
unicode_reader = "1"
terminal_size = "*"
threadpool = "1"
oneshot = "*"
self-replace = "1"
