[package]
name = "rusting_raceway"
version = "0.1.0"
edition = "2021"
publish = false

[dependencies]
bevy_platform = "0.16"
bevy = { version = "0.16", default-features = false, features = ["std", "bevy_asset", "bevy_core_pipeline", "bevy_pbr", "bevy_render", "bevy_state", "bevy_text", "bevy_ui", "bevy_window", "default_font", "png"] }
bevy_ggrs = "0.18"
bevy_polyline = "0.12"
clap = { version = "4", features = ["cargo"] }
