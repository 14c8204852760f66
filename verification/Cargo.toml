[package]
name = "seance"
version = "0.1.0"
edition = "2021"
publish = false

[dependencies]
ascii = "=1.1.0"
axum = "*"
eframe = { version = "*", default-features = false, features = ["glow", "default_fonts", "persistence", "x11"] }
egui = "*"
egui_dnd = "*"
egui_extras = "*"
env_logger = "=0.11.11"
log = "=0.4.34"
lyon_algorithms = "=1.0.22"
oneshot = "=0.2.1"
reqwest = { version = "*", default-features = false, features = ["blocking", "json"] }
serde = { version = "=1.0.229", features = ["derive"] }
serde_json = "=1.0.154"
tokio = { version = "*", features = ["rt-multi-thread", "macros", "net"] }
usvg = "=0.48.1"
