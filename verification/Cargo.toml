[package]
name = "audio_bridge"
version = "0.1.0"
edition = "2021"
publish = false

[dependencies]
bevy_app = "0.14"
bevy_derive = "0.14"
bevy_ecs = "0.14"
bevy_log = "0.14"
bevy_utils = "0.14"
firewheel = "*"
log = "*"
