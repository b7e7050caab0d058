[package]
name = "ascplayer"
version = "0.1.0"
edition = "2021"
publish = false

[dependencies]
A2VConverter = "=0.1.1"
crossterm = "=0.29.0"
ffmpeg-next = "=9.0.0"
rodio = "=0.20.1"
spin_sleep = "=1.3.3"
