[package]
name = "fastsapp"
version = "0.1.0"
edition = "2021"
publish = false

[dependencies]
unicode-segmentation = "=1.13.3"
jiff = "=0.2.39"
qrcode = { version = "=0.14.1", default-features = false }
clap = { version = "=4.6.7", features = ["derive"] }
directories = "=6.0.0"
serde = { version = "=1.0.229", features = ["derive"] }
serde_json = "=1.0.154"
log = "=0.4.35"
env_logger = "=0.11.11"
emojis = "=0.9.1"
open = "=5.4.5"
notify-rust = "=4.18.2"
arboard = { version = "=3.7.0", default-features = false }
ksni = { version = "0.3", features = ["blocking"] }
