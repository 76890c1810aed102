[package]
name = "vollmond"
version = "0.1.0"
edition = "2021"
publish = false

[dependencies]
keyframe = "=1.1.1"
keyframe_derive = "=1.0.0"
macroquad = "0.3"
nanoserde = "=0.1.37"
quad-snd = "=0.2.8"
