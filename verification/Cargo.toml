[package]
name = "fps_sim"
version = "0.1.0"
edition = "2021"
publish = false

[dependencies]
bevy = { version = "=0.17.3", default-features = false, features = ["std", "bevy_asset", "bevy_state", "bevy_log", "bevy_window", "bevy_camera", "bevy_mesh", "bevy_light", "bevy_scene", "bevy_color", "bevy_render", "bevy_core_pipeline", "bevy_pbr"] }
bevy_rapier3d = { version = "=0.32.0", default-features = false, features = ["dim3", "debug-render-3d"] }
bevy_replicon = "=0.36.1"
bevy_replicon_renet = "=0.12.0"
renet_netcode = { version = "=1.2.0", features = ["bevy"] }
rpassword = "=7.5.4"
serde = { version = "=1.0.229", features = ["derive"] }
