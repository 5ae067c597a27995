[package]
name = "canopus_bluetooth_audio_core"
version = "0.1.0"
edition = "2021"
publish = false

[dependencies]
nanomp3 = "=0.1.1"
