[package]
name = "tetris_rules"
version = "0.1.0"
edition = "2021"
publish = false

[dependencies]
bevy = { version = "0.15", default-features = false, features = ["bevy_sprite", "bevy_window", "bevy_winit", "x11"] }
rand = "0.8"
