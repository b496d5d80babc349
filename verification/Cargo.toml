[package]
name = "hexciv"
version = "0.1.0"
edition = "2021"
publish = false

[dependencies]
fastrand = "=2.5.0"
pathfinding = "=4.16.0"
indexmap = "=2.14.2"
uuid = { version = "=1.29.0", features = ["v4", "serde"] }
serde = { version = "=1.0.229", features = ["derive"] }
serde_json = "=1.0.154"
bitvec = "=1.1.1"
itertools = "=0.13.0"
strum = { version = "=0.26.3", features = ["derive"] }
derive_more = { version = "=1.0.0", features = ["display"] }
num_enum = "=0.7.6"
ordered-float = "=4.6.0"
fastrand-contrib = "=0.1.0"
bevy = { version = "=0.16.1", default-features = false, features = ["bevy_asset", "bevy_color", "bevy_core_pipeline", "bevy_render", "bevy_sprite", "bevy_state", "bevy_text", "bevy_ui", "bevy_log", "std"] }
bevy_ecs_tilemap = "=0.16.0"
bevy_simple_text_input = { version = "0.11", default-features = false }
