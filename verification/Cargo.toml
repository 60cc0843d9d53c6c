[package]
name = "run_in_roblox"
version = "0.1.0"
edition = "2021"
publish = false

[dependencies]
rand = "0.8"
sysinfo = "*"
structopt = "0.3"
anyhow = "*"
colored = "*"
env_logger = "*"
log = "*"
fs-err = "*"
tempfile = "*"
