[package]
name = "audio_visualizer"
version = "0.1.0"
edition = "2021"

[dependencies]
macroquad = "0.4"
rodio = "0.20"
