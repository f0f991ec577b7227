[package]
name = "starlight_vocoder"
version = "0.1.0"
edition = "2021"
publish = false

[dependencies]
butterworth = "0.1.0"
