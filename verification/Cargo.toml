[package]
name = "ace_flight"
version = "0.1.0"
edition = "2021"
publish = false

[dependencies]
bevy = { version = "=0.6.1", default-features = false, features = ["render", "bevy_winit", "x11", "png"] }
bevy_rapier3d = "=0.12.1"
rapier3d = "=0.12.0-alpha.0"
image = "=0.23.14"
