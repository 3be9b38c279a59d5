[package]
name = "corn_factory"
version = "0.1.0"
edition = "2021"
publish = false

[dependencies]
bevy = { version = "0.16", default-features = false, features = ["std", "bevy_animation", "bevy_asset", "bevy_color", "bevy_core_pipeline", "bevy_gizmos", "bevy_gltf", "bevy_pbr", "bevy_picking", "bevy_render", "bevy_scene", "bevy_window", "ktx2", "zstd", "tonemapping_luts", "smaa_luts"] }
avian3d = "0.3"
bevy_panorbit_camera = "0.26"
bevy_skein = "0.2"
