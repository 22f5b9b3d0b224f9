[package]
name = "dodgescrape2"
version = "0.1.0"
edition = "2021"
publish = false

[dependencies]
avian2d = { version = "=0.4.1", default-features = false, features = ["2d", "f32", "parry-f32"] }
bevy = { version = "=0.17.3", default-features = false, features = ["std", "bevy_asset", "bevy_color", "bevy_core_pipeline", "bevy_post_process", "bevy_render", "bevy_sprite", "bevy_sprite_render", "bevy_window", "tonemapping_luts", "zstd_rust"] }
crossbeam = "=0.8.5"
rand = "=0.9.5"
