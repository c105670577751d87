[package]
name = "patrol_physics"
version = "0.1.0"
edition = "2021"
publish = false

[dependencies]
bevy = { version = "0.16", default-features = false }
avian2d = { version = "0.3", default-features = false, features = ["2d", "f32", "parry-f32"] }
