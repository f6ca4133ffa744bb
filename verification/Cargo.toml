[package]
name = "i3bar"
version = "0.1.0"
edition = "2021"
publish = false

[dependencies]
regex = "1"
mpd = "*"
time = "0.1"
