[package]
name = "snake_sim"
version = "0.1.0"
edition = "2021"
publish = false

[dependencies]
bevy = { version = "=0.15.3", default-features = false, features = ["bevy_asset", "bevy_text", "bevy_ui", "bevy_window"] }
rand = "=0.9.5"
