[package]
name = "bevy_irc"
version = "0.1.0"
edition = "2021"
publish = false

[dependencies]
irc = { version = "*", default-features = false }
bevy_app = "0.14"
bevy_ecs = "0.14"
bevy_time = "0.14"
bevy_utils = "0.14"
async-compat = "*"
futures-util = "*"
