[package]
name = "tridactyl_native"
version = "0.5.0"
edition = "2021"
publish = false

[dependencies]
base64 = "=0.22.1"
dirs = "=7.0.0"
log = "=0.4.34"
regex = "=1.13.1"
serde_json = "=1.0.154"
simplelog = "=0.12.2"
tempfile = "=3.27.0"
