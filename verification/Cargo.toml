[package]
name = "web_value_tracker"
version = "0.1.0"
edition = "2021"
publish = false

[dependencies]
chrono = { version = "=0.4.45", default-features = false, features = ["clock", "std"] }
eframe = { version = "0.29", default-features = false, features = ["default_fonts", "glow", "persistence", "x11"] }
egui = "0.29"
egui_extras = "0.29"
poll-promise = { version = "=0.3.0", features = ["tokio"] }
serde = { version = "=1.0.229", features = ["derive"] }
tokio = { version = "=1.54.1", features = ["rt-multi-thread", "signal", "time"] }
tokio-cron-scheduler = "=0.15.1"
ulid = "=1.2.1"
