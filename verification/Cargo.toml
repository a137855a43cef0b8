[package]
name = "pxu_gui"
version = "0.1.0"
edition = "2021"
publish = false

[dependencies]
serde = { version = "=1.0.229", features = ["derive"] }
serde_with = "=3.24.0"
clap = { version = "=4.6.7", features = ["derive"] }
ron = "=0.12.3"
toml = "=1.1.8"
num = "=0.4.3"
num_cpus = "=1.17.0"
log = "=0.4.35"
itertools = "=0.15.0"
md5 = "*"
thiserror = "*"
