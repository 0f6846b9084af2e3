[package]
name = "sky_ecs_comparison"
version = "0.1.0"
edition = "2021"
publish = false

[dependencies]
cgmath = "0.18"
criterion = { version = "0.5", default-features = false }
serde = { version = "1", features = ["derive"] }
serde_json = "1"
walkdir = "2"
