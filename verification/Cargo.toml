[package]
name = "music_core"
version = "0.1.0"
edition = "2021"
publish = false

[dependencies]
cpal = "=0.15.3"
rubato = "=0.12.0"

[dev-dependencies]
hound = "=3.5.1"
