[package]
name = "rynth"
version = "0.1.0"
edition = "2021"
publish = false

[dependencies]
anyhow = "1"
clap = "2"
cpal = "0.13"
