[package]
name = "ascii-webcam"
version = "1.0.0"
edition = "2021"
publish = false

[dependencies]
cfg-if = "1"
clap = { version = "4", features = ["derive"] }
crossterm = "0.28"
dirs = "5"
image = { version = "0.25", default-features = false, features = ["jpeg"] }
libc = "0.2"
log = "0.4"
nokhwa = { version = "0.10", features = ["input-native"] }
simplelog = "0.12"
