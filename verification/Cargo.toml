[package]
name = "mouse_motion"
version = "0.1.0"
edition = "2021"
publish = false

[dependencies]
fastrand = "1"
anyhow = "*"
clap = "4"
crossterm = "*"
mouse-rs = "*"
spin_sleep = "*"
