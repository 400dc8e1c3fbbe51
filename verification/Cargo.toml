[package]
name = "bevy_rl"
version = "0.1.0"
edition = "2021"
publish = false

[dependencies]
dirs = "=7.0.0"
serde = { version = "=1.0.229", features = ["derive"] }
serde_json = "=1.0.154"
ron = "=0.12.3"
avian3d = { version = "=0.7.0", default-features = false, features = ["3d", "parry-f32"] }
bevy = { version = "=0.19.1", default-features = false, features = ["std"] }
