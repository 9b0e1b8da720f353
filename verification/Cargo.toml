[package]
name = "bevy_obj"
version = "0.1.0"
edition = "2021"
rust-version = "1.95"
publish = false

[dependencies]
tobj = { version = "=4.0.5", default-features = false }
serde = { version = "=1.0.229", features = ["derive"] }
thiserror = "=2.0.21"
bevy = { version = "=0.17.3", default-features = false, features = ["std", "bevy_asset", "bevy_scene", "bevy_pbr"] }
