[package]
name = "swgoh_tb"
version = "0.1.0"
edition = "2021"
publish = false

[dependencies]
anyhow = "=1.0.104"
eframe = { version = "=0.32.3", default-features = false, features = ["glow", "default_fonts"] }
egui = { version = "=0.32.3", default-features = false }
egui_extras = { version = "=0.32.3", default-features = false, features = ["http", "image"] }
log = "=0.4.34"
reqwest = { version = "=0.12.28", default-features = false }
resvg = { version = "=0.45.1", default-features = false, features = ["text", "system-fonts"] }
serde = { version = "=1.0.229", features = ["derive"] }
svg = "=0.18.0"
svg_to_ico = "=1.3.1"
thirtyfour = { version = "=0.36.1", default-features = false, features = ["reqwest", "rustls-tls"] }
tokio = { version = "=1.54.1", features = ["macros", "rt-multi-thread"] }
toml = "=0.9.12"
web-sys = { version = "=0.3.106", features = ["Window", "Location"] }
