[package]
name = "km003c_workbench"
version = "0.1.0"
edition = "2021"
publish = false

[dependencies]
chrono = { version = "=0.4.45", features = ["serde"] }
chrono-tz = "=0.10.4"
eframe = { version = "=0.34.3", default-features = false, features = ["default_fonts", "glow", "persistence", "x11"] }
egui_plot = "=0.35.0"
egui-system-fonts = "=0.34.2"
rfd = "0.17"
serde = { version = "1", features = ["derive"] }
serde_json = "1"
tokio = { version = "1", features = ["rt-multi-thread", "sync", "time", "macros"] }
tracing = "0.1"
tracing-subscriber = "0.3"
