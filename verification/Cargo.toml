[package]
name = "portfolio_core"
version = "0.1.0"
edition = "2021"
publish = false

[dependencies]
num-bigint = "=0.4.6"
num-rational = "=0.4.2"
num-traits = "=0.2.19"
astro-float = "=0.9.6"
serde = { version = "1", features = ["derive"] }
eframe = { version = "=0.36.2", default-features = false, features = ["default_fonts", "glow", "persistence", "x11"] }
egui = { version = "=0.36.2", default-features = false, features = ["default_fonts"] }
env_logger = { version = "0.11", default-features = false }
log = "0.4"

[dev-dependencies]
ron = "0.8"
