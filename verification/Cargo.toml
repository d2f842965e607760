[package]
name = "ariel_school"
version = "0.1.0"
edition = "2021"
publish = false

[dependencies]
log = "=0.4.35"
syn = { version = "=2.0.119", features = ["full"] }
quote = "=1.0.47"
proc-macro2 = "=1.0.107"
serde = { version = "=1.0.229", features = ["derive"] }
tokio = { version = "=1.54.1", features = ["rt-multi-thread"] }
reqwest = { version = "=0.12.28", default-features = false, features = ["json"] }
eframe = { version = "=0.29.1", default-features = false, features = ["default_fonts", "glow", "x11"] }
egui_extras = { version = "=0.29.1", default-features = false }
