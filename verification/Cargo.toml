[package]
name = "reminder_commands"
version = "0.1.0"
edition = "2021"
publish = false

[dependencies]
chrono = "=0.4.45"
chrono-tz = "=0.8.6"
num-integer = "=0.1.47"
rand = "=0.8.8"
regex = "=1.13.1"
tokio = { version = "=1.54.1", features = ["process", "rt-multi-thread", "macros"] }
