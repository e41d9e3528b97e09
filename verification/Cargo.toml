[package]
name = "crabcamera"
version = "0.1.0"
edition = "2021"
publish = false

[dependencies]
chrono = { version = "0.4", default-features = false, features = ["clock", "std", "serde"] }
uuid = { version = "1", features = ["v4"] }
openh264 = "0.9"
image = { version = "0.25", default-features = false, features = ["jpeg"] }
serde = { version = "1", features = ["derive"] }
serde_json = "1"
tokio = { version = "1", features = ["sync", "rt", "rt-multi-thread", "macros", "time"] }
tokio-util = "0.7"
log = "0.4"
lazy_static = "1"
crossbeam-channel = "0.5"
env_logger = "0.11"
muxide = "*"
libopus_sys = "*"
nokhwa = { version = "0.10", features = ["input-native"] }
v4l = "0.14"
