[package]
name = "glyphstool"
version = "0.1.0"
edition = "2021"
publish = false

[dependencies]
norad = "=0.19.2"
uuid = { version = "=1.29.0", features = ["v4"] }
clap = { version = "=4.6.7", features = ["derive"] }
env_logger = "=0.11.11"
log = "=0.4.34"
mimalloc = "=0.1.52"
rayon = "=1.12.0"
plist = "=1.10.3"
