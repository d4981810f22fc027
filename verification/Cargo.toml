[package]
name = "bevy_mod_aseprite"
version = "0.1.0"
edition = "2021"
publish = false

[dependencies]
aseprite-loader = "*"
bevy = { version = "0.16", default-features = false, features = ["bevy_asset", "bevy_sprite", "bevy_log"] }
heck = "0.5"
darling = "0.20"
syn = { version = "2", features = ["full"] }
quote = "1"
