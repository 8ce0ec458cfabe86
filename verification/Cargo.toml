[package]
name = "midi_smf"
version = "0.1.0"
edition = "2021"
publish = false

[dependencies]
cpal = "0.13"
thiserror = "1"
