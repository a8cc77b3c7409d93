[package]
name = "rust_2d_game_engine"
version = "0.1.0"
edition = "2021"
publish = false

[dependencies]
uuid = { version = "1", features = ["v4", "serde"] }
indexmap = { version = "2", features = ["serde"] }
sha2 = "0.10"
serde = { version = "1", features = ["derive"] }
serde_json = "1"
chrono = "0.4"
strip-ansi-escapes = "0.2"
once_cell = "1"
egui = "0.32"
rapier2d = "0.22"
mlua = { version = "0.10", features = ["lua54", "vendored"] }
image = { version = "0.25", default-features = false, features = ["png", "jpeg", "gif"] }
lofty = "0.18"
