[package]
name = "sonar_game"
version = "0.1.0"
edition = "2021"
publish = false

[dependencies]
avian2d = { version = "=0.4.1", default-features = false, features = ["2d", "f32", "parry-f32"] }
bevy = { version = "=0.17.3", default-features = false, features = ["std", "bevy_asset", "bevy_color", "bevy_camera", "bevy_image", "bevy_log", "bevy_mesh", "bevy_render", "bevy_sprite", "bevy_sprite_render", "bevy_state", "bevy_text", "bevy_ui", "bevy_window", "default_font"] }
rand = "=0.9.5"
