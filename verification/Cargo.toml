[package]
name = "chromascope"
version = "0.1.0"
edition = "2021"
publish = false

[dependencies]
anyhow = "=1.0.104"
egui = "0.27"
egui_plot = "0.27"
env_logger = { version = "=0.11.11", default-features = false }
image = { version = "=0.25.10", default-features = false, features = ["png"] }
log = "=0.4.34"
mzdata = { version = "=0.67.4", default-features = false, features = ["miniz_oxide", "mzml"] }
