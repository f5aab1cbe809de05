[package]
name = "regbar"
version = "0.1.0"
edition = "2021"
publish = false

[dependencies]
chrono = "=0.4.45"
env_logger = "=0.11.11"
gtk4-layer-shell = "=0.8.1"
hyprland = "=0.4.0-alpha.3"
language-tags = "=0.3.2"
log = "=0.4.34"
relm4 = "=0.11.0"
system-tray = "=0.3.0"
tokio = { version = "=1.54.1", features = ["rt", "time"] }
xkb-data = "=0.2.2"
