[package]
name = "suntrack"
version = "0.2.0"
edition = "2021"
publish = false

[dependencies]
chrono = { version = "=0.4.45", default-features = false, features = ["clock", "std"] }
rusqlite = { version = "=0.41.1", features = ["bundled"] }
serde = { version = "=1.0.229", features = ["derive"] }
toml = "=1.1.8"
eframe = { version = "=0.36.2", default-features = false, features = ["glow", "default_fonts", "x11"] }
egui-phosphor = "=0.14.0"
active-win-pos-rs = "=0.11.0"
user-idle = "=0.6.0"
