[package]
name = "entity_arena"
version = "0.1.0"
edition = "2021"
publish = false

[dependencies]
uuid = { version = "1", features = ["v4"] }
ash = "0.33"
winit = { version = "0.25", default-features = false, features = ["x11"] }
winapi = { version = "0.3", features = ["windef", "libloaderapi"] }
