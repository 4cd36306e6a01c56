[package]
name = "steering_sim"
version = "0.1.0"
edition = "2021"
publish = false

[dependencies]
bevy = { version = "=0.15.3", default-features = false, features = ["bevy_window"] }
rand = "=0.9.5"
