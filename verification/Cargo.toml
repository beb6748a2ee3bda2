[package]
name = "midi_pc"
version = "0.1.0"
edition = "2021"
publish = false

[dependencies]
midir = "*"
rosc = "*"
term = "*"
