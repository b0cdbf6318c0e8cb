[package]
name = "optra"
version = "0.1.0"
edition = "2021"
publish = false

[dependencies]
image = "=0.25.10"
bytemuck = "=1.25.2"
egui = "=0.33.3"
eframe = { version = "=0.33.3", default-features = false, features = ["wgpu", "x11", "default_fonts"] }
catppuccin-egui = { version = "=5.7.0", default-features = false, features = ["egui33"] }
tokio = { version = "=1.54.1", features = ["rt", "time"] }
