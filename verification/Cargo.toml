[package]
name = "keyboard"
version = "0.1.0"
edition = "2021"
publish = false

[dependencies]
wmidi = "2"
midir = "0.5"
sound_stream = "*"
log = "*"
sdl2 = "*"
sdl2_timing = "*"
