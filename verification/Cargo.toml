[package]
name = "dev_uploader"
version = "0.1.0"
edition = "2021"
publish = false

[dependencies]
ssh2 = "=0.9.6"
clap = "=4.6.7"
tokio = { version = "=1.53.2", features = ["rt-multi-thread"] }
watchexec = "=8.4.4"
watchexec-events = "=6.1.3"
watchexec-signals = "=5.1.1"
miette = "=7.6.0"
walkdir = "=2.5.0"
indicatif = "=0.18.6"
oneshot = { version = "=0.2.1", features = ["std"] }
chrono = "=0.4.45"
