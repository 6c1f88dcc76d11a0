[package]
name = "letsdeb_core"
version = "0.1.0"
edition = "2021"
publish = false

[dependencies]
ar = "0.9"
flate2 = "1"
tar = "0.4"
xz = "0.1"
zstd = "*"
clap = { version = "4", features = ["derive"] }
eyre = "0.6"
log = "0.4"
env_logger = "*"
rustix = { version = "*", features = ["process"] }
debcontrol = "*"
debcontrol_struct = "*"
