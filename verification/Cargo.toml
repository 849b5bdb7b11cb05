[package]
name = "bevy_smud_demo"
version = "0.1.0"
edition = "2021"
publish = false

[dependencies]
bevy = { version = "=0.18.1", default-features = false, features = ["bevy_asset", "bevy_render"] }
bevy_pancam = { version = "0.20", default-features = false }
bevy_smud = { version = "0.13", default-features = false }
egui_extras = { version = "0.33", default-features = false }
git-version = "=0.3.9"
include_dir = "=0.7.4"
